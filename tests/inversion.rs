use mq_decrafting_table::error::InvertError;
use mq_decrafting_table::item::{Ingredient, ItemPair, ItemStack, ItemStacks, ItemTag, Key};
use mq_decrafting_table::loot_table::{Entry, Function, LootTable, Pool};
use mq_decrafting_table::pattern::{count_symbol_in, layout};
use mq_decrafting_table::recipe::{Data, Description, Inversion, RecipeComponent, Shaped, Shapeless, Skip};
use mq_decrafting_table::tags::expand;
use mq_decrafting_table::text::{decrafting_recipe_id, mq_decrafting_item, placeholder_name};

fn stack(item: &str, data: Option<u8>, count: Option<u8>) -> ItemStack {
    ItemStack { item: item.to_string(), data, count }
}

fn item_key(item: &str) -> Key {
    Key::Item(ItemPair { item: item.to_string(), data: None })
}

fn tag_key(tag: &str) -> Key {
    Key::Tag(ItemTag { tag: tag.to_string() })
}

fn rows(r: &[&str]) -> Vec<String> {
    r.iter().map(|s| s.to_string()).collect()
}

fn component(id: &str, tags: &[&str], data: Data) -> RecipeComponent {
    RecipeComponent {
        description: Description { identifier: id.to_string() },
        unlock: None,
        tags: tags.iter().map(|s| s.to_string()).collect(),
        data,
        priority: None,
    }
}

fn furnace_recipe() -> RecipeComponent {
    component(
        "minecraft:furnace",
        &["crafting_table"],
        Data::Shaped(Shaped {
            pattern: rows(&["###", "# #", "###"]),
            key: vec![('#', item_key("minecraft:stone_brick"))],
            result: ItemStacks::Single(stack("minecraft:furnace", None, None)),
        }),
    )
}

fn invert(c: RecipeComponent) -> Inversion {
    let id = decrafting_recipe_id(&c.description.identifier);
    c.inverse(&id).unwrap()
}

fn shaped_of(out: &Inversion) -> &Shaped {
    match &out.recipe.as_ref().unwrap().component.as_ref().unwrap().data {
        Data::Shaped(s) => s,
        Data::Shapeless(_) => panic!("expected a grid recipe"),
    }
}

fn shapeless_of(out: &Inversion) -> &Shapeless {
    match &out.recipe.as_ref().unwrap().component.as_ref().unwrap().data {
        Data::Shapeless(s) => s,
        Data::Shaped(_) => panic!("expected a shapeless recipe"),
    }
}

fn result_list(s: &Shaped) -> &Vec<ItemStack> {
    match &s.result {
        ItemStacks::Multiple(v) => v,
        ItemStacks::Single(_) => panic!("expected a result list"),
    }
}

fn entry_count_and_data(e: &Entry) -> (u8, u8) {
    let c = match &e.functions[0] {
        Function::SetCount(f) => {
            assert_eq!(f.function, "set_count");
            f.count
        }
        Function::SetData(_) => panic!("set_count comes first"),
    };
    let d = match &e.functions[1] {
        Function::SetData(f) => {
            assert_eq!(f.function, "set_data");
            f.data
        }
        Function::SetCount(_) => panic!("set_data comes second"),
    };
    (c, d)
}

#[test]
fn untagged_shaped_recipe_inverts_to_its_ingredients() {
    let out = invert(furnace_recipe());
    assert!(out.loot_table.is_none());
    assert!(out.placeholder.is_none());
    let recipe = out.recipe.as_ref().unwrap();
    assert_eq!(recipe.format_version, "1.21.10");
    let c = recipe.component.as_ref().unwrap();
    assert_eq!(c.description.identifier, "mq_decrafting_table:furnace");
    assert_eq!(c.tags, vec!["mq_decrafting_table".to_string()]);
    assert_eq!(c.unlock.as_ref().unwrap().context, "AlwaysUnlocked");
    let s = shaped_of(&out);
    assert_eq!(s.pattern, rows(&["#", "", ""]));
    assert_eq!(s.key.len(), 1);
    assert_eq!(s.key[0].0, '#');
    match &s.key[0].1 {
        Key::Item(p) => {
            assert_eq!(p.item, "minecraft:furnace");
            assert_eq!(p.data, None);
        }
        Key::Tag(_) => panic!("expected an item key"),
    }
    let v = result_list(s);
    assert_eq!(v.len(), 1);
    assert_eq!(v[0].item, "minecraft:stone_brick");
    assert_eq!(v[0].count, Some(8));
}

#[test]
fn tagged_shapeless_recipe_gives_placeholder_and_loot_table() {
    let c = component(
        "minecraft:oak_planks",
        &["crafting_table"],
        Data::Shapeless(Shapeless {
            ingredients: vec![Ingredient::Tag(ItemTag { tag: "minecraft:logs".to_string() })],
            result: stack("minecraft:oak_planks", None, Some(4)),
        }),
    );
    let out = invert(c);
    assert_eq!(out.placeholder.as_deref(), Some("mq_decrafting_item:oak_planks"));
    let s = shapeless_of(&out);
    assert_eq!(s.ingredients.len(), 1);
    match &s.ingredients[0] {
        Ingredient::Item(i) => {
            assert_eq!(i.item, "minecraft:oak_planks");
            assert_eq!(i.count, Some(4));
        }
        Ingredient::Tag(_) => panic!("expected an item ingredient"),
    }
    assert_eq!(s.result.item, "mq_decrafting_item:oak_planks");
    assert_eq!(s.result.count, None);
    assert_eq!(s.result.data, None);
    let table = out.loot_table.as_ref().unwrap();
    assert_eq!(table.pools.len(), 1);
    let logs = expand("minecraft:logs").unwrap();
    let pool = &table.pools[0];
    assert_eq!(pool.rolls, 1);
    assert_eq!(pool.entries.len(), logs.len());
    for (e, name) in pool.entries.iter().zip(logs.iter()) {
        assert_eq!(e.ty, "item");
        assert_eq!(e.weight, 1);
        assert_eq!(&e.name, name);
        assert_eq!(entry_count_and_data(e), (1, 0));
    }
}

#[test]
fn deprecated_recipe_is_skipped() {
    let c = component("minecraft:old_thing", &["crafting_table", "deprecated"], furnace_recipe().data);
    assert!(c.is_deprecated());
    assert_eq!(c.skip_reason(false), Some(Skip::Deprecated));
    assert_eq!(furnace_recipe().skip_reason(false), None);
}

#[test]
fn duplicate_identifier_is_skipped() {
    let first = furnace_recipe();
    let second = furnace_recipe();
    let mut seen: Vec<String> = Vec::new();
    let id = decrafting_recipe_id(&first.description.identifier);
    assert_eq!(first.skip_reason(seen.contains(&id)), None);
    seen.push(id);
    let id2 = decrafting_recipe_id(&second.description.identifier);
    assert_eq!(second.skip_reason(seen.contains(&id2)), Some(Skip::Duplicate));
}

#[test]
fn single_key_inverse_sums_to_occurrences() {
    let c = component(
        "minecraft:chest",
        &[],
        Data::Shaped(Shaped {
            pattern: rows(&["##", "#"]),
            key: vec![('#', item_key("minecraft:planks"))],
            result: ItemStacks::Single(stack("minecraft:chest", None, Some(7))),
        }),
    );
    let out = invert(c);
    let s = shaped_of(&out);
    let total: u32 = result_list(s).iter().map(|i| i.count.unwrap_or(1) as u32).sum();
    assert_eq!(total, 3);
    assert_eq!(s.pattern, rows(&["###", "###", "#"]));
    assert!(s.pattern.iter().all(|r| r.chars().count() <= 3));
}

#[test]
fn buckets_are_given_back_one_per_entry() {
    let c = component(
        "minecraft:cake",
        &[],
        Data::Shaped(Shaped {
            pattern: rows(&["AAA", "BEB", "CCC"]),
            key: vec![
                ('A', item_key("minecraft:bucket")),
                ('B', item_key("minecraft:sugar")),
                ('C', item_key("minecraft:wheat")),
                ('E', item_key("minecraft:egg")),
            ],
            result: ItemStacks::Single(stack("minecraft:cake", None, None)),
        }),
    );
    let out = invert(c);
    let v = result_list(shaped_of(&out));
    let names: Vec<(&str, Option<u8>)> = v.iter().map(|i| (i.item.as_str(), i.count)).collect();
    assert_eq!(
        names,
        vec![
            ("minecraft:bucket", None),
            ("minecraft:sugar", Some(2)),
            ("minecraft:wheat", Some(3)),
            ("minecraft:egg", Some(1)),
            ("minecraft:bucket", None),
            ("minecraft:bucket", None),
        ]
    );
}

#[test]
fn result_list_is_laid_out_symbol_by_symbol() {
    let c = component(
        "minecraft:honey",
        &[],
        Data::Shaped(Shaped {
            pattern: rows(&["X"]),
            key: vec![('X', item_key("minecraft:honey_block"))],
            result: ItemStacks::Multiple(vec![
                stack("minecraft:honey_bottle", None, Some(4)),
                stack("minecraft:bucket", Some(1), Some(2)),
            ]),
        }),
    );
    let out = invert(c);
    let s = shaped_of(&out);
    assert_eq!(s.pattern, rows(&["ABB", "", ""]));
    assert_eq!(s.key.len(), 2);
    assert_eq!(s.key[0].0, 'A');
    assert_eq!(s.key[1].0, 'B');
    match &s.key[1].1 {
        Key::Item(p) => {
            assert_eq!(p.item, "minecraft:bucket");
            assert_eq!(p.data, Some(1));
        }
        Key::Tag(_) => panic!("expected an item key"),
    }
    assert_eq!(result_list(s)[0].count, Some(1));
}

#[test]
fn oversized_result_gives_nothing() {
    let c = component(
        "minecraft:sticks",
        &[],
        Data::Shapeless(Shapeless {
            ingredients: vec![Ingredient::Item(stack("minecraft:bamboo", None, Some(2)))],
            result: stack("minecraft:stick", None, Some(10)),
        }),
    );
    let out = invert(c);
    assert!(out.recipe.is_none() && out.loot_table.is_none() && out.placeholder.is_none());
    let d = component(
        "minecraft:many",
        &[],
        Data::Shaped(Shaped {
            pattern: rows(&["#"]),
            key: vec![('#', tag_key("minecraft:planks"))],
            result: ItemStacks::Multiple(vec![stack("minecraft:a", None, Some(5)), stack("minecraft:b", None, Some(5))]),
        }),
    );
    let out = invert(d);
    assert!(out.recipe.is_none() && out.loot_table.is_none() && out.placeholder.is_none());
}

#[test]
fn nine_items_still_invert() {
    let c = component(
        "minecraft:nine",
        &[],
        Data::Shapeless(Shapeless {
            ingredients: vec![Ingredient::Item(stack("minecraft:block", None, None))],
            result: stack("minecraft:ingot", None, Some(9)),
        }),
    );
    let out = invert(c);
    assert_eq!(shaped_of(&out).pattern, rows(&["###", "###", "###"]));
}

#[test]
fn unknown_tag_fails_naming_it() {
    let c = component(
        "minecraft:thing",
        &[],
        Data::Shapeless(Shapeless {
            ingredients: vec![
                Ingredient::Item(stack("minecraft:stick", None, None)),
                Ingredient::Tag(ItemTag { tag: "minecraft:unheard_of".to_string() }),
                Ingredient::Tag(ItemTag { tag: "minecraft:also_unknown".to_string() }),
            ],
            result: stack("minecraft:thing", None, None),
        }),
    );
    match c.inverse("mq_decrafting_table:thing") {
        Err(InvertError::UnknownTag { tag }) => assert_eq!(tag, "minecraft:unheard_of"),
        other => panic!("expected an unknown tag, got {:?}", other.err()),
    }
    let d = component(
        "minecraft:thing",
        &[],
        Data::Shaped(Shaped {
            pattern: rows(&["#X"]),
            key: vec![('#', item_key("minecraft:stick")), ('X', tag_key("minecraft:mystery"))],
            result: ItemStacks::Single(stack("minecraft:thing", None, None)),
        }),
    );
    match d.inverse("mq_decrafting_table:thing") {
        Err(InvertError::UnknownTag { tag }) => assert_eq!(tag, "minecraft:mystery"),
        other => panic!("expected an unknown tag, got {:?}", other.err()),
    }
}

#[test]
fn tagged_shaped_recipe_counts_each_key() {
    let c = component(
        "minecraft:crafting_table",
        &[],
        Data::Shaped(Shaped {
            pattern: rows(&["##", "##"]),
            key: vec![('#', tag_key("minecraft:planks"))],
            result: ItemStacks::Single(stack("minecraft:crafting_table", None, None)),
        }),
    );
    let out = invert(c);
    assert_eq!(out.placeholder.as_deref(), Some("mq_decrafting_item:crafting_table"));
    let pool = &out.loot_table.as_ref().unwrap().pools[0];
    assert_eq!(pool.entries.len(), 11);
    assert_eq!(pool.entries[0].name, "minecraft:oak_planks");
    assert_eq!(entry_count_and_data(&pool.entries[0]), (4, 0));
    let s = shapeless_of(&out);
    assert_eq!(s.result.item, "mq_decrafting_item:crafting_table");
    assert_eq!(s.result.count, None);
}

#[test]
fn placeholder_keeps_data_value_but_not_count() {
    let c = component(
        "minecraft:sticks",
        &[],
        Data::Shaped(Shaped {
            pattern: rows(&["#", "#"]),
            key: vec![('#', tag_key("minecraft:planks"))],
            result: ItemStacks::Multiple(vec![stack("minecraft:stick", Some(2), Some(4))]),
        }),
    );
    let out = invert(c);
    let s = shapeless_of(&out);
    assert_eq!(s.result.item, "mq_decrafting_item:stick");
    assert_eq!(s.result.data, Some(2));
    assert_eq!(s.result.count, None);
    match &s.ingredients[0] {
        Ingredient::Item(i) => assert_eq!(i.count, Some(4)),
        Ingredient::Tag(_) => panic!("expected an item ingredient"),
    }
    let pool = &out.loot_table.as_ref().unwrap().pools[0];
    assert_eq!(entry_count_and_data(&pool.entries[0]), (2, 0));
}

#[test]
fn repeated_symbol_is_refused() {
    let s = Shaped {
        pattern: rows(&["##"]),
        key: vec![('#', item_key("minecraft:stone")), ('#', item_key("minecraft:dirt"))],
        result: ItemStacks::Single(stack("minecraft:x", None, None)),
    };
    assert!(matches!(s.inverse(), Err(InvertError::RepeatedSymbol)));
    let t = Shaped {
        pattern: rows(&["#X"]),
        key: vec![('#', tag_key("minecraft:planks")), ('X', item_key("minecraft:stick")), ('#', tag_key("minecraft:logs"))],
        result: ItemStacks::Single(stack("minecraft:x", None, None)),
    };
    assert!(matches!(LootTable::from_shaped(t), Err(InvertError::RepeatedSymbol)));
}

#[test]
fn buckets_then_items_keep_three_marks_per_row() {
    let s = Shaped {
        pattern: rows(&["#"]),
        key: vec![('#', item_key("minecraft:thing"))],
        result: ItemStacks::Multiple(vec![
            stack("minecraft:bucket", None, Some(3)),
            stack("minecraft:x", None, None),
            stack("minecraft:y", None, None),
        ]),
    };
    let n = s.inverse().unwrap();
    assert_eq!(n.pattern, rows(&["AAA", "BC", ""]));
}

#[test]
fn tag_in_item_position_is_refused() {
    let s = Shaped {
        pattern: rows(&["#"]),
        key: vec![('#', tag_key("minecraft:planks"))],
        result: ItemStacks::Single(stack("minecraft:x", None, None)),
    };
    match s.inverse() {
        Err(InvertError::TagInItemPosition { tag }) => assert_eq!(tag, "minecraft:planks"),
        _ => panic!("expected a refusal"),
    }
    let l = Shapeless {
        ingredients: vec![Ingredient::Tag(ItemTag { tag: "minecraft:wool".to_string() })],
        result: stack("minecraft:x", None, None),
    };
    assert!(matches!(l.inverse(), Err(InvertError::TagInItemPosition { .. })));
}

#[test]
fn malformed_pattern_is_refused() {
    let s = Shaped {
        pattern: rows(&["####"]),
        key: vec![('#', item_key("minecraft:stone"))],
        result: ItemStacks::Single(stack("minecraft:x", None, None)),
    };
    assert!(matches!(s.inverse(), Err(InvertError::MalformedPattern)));
    let t = Shaped {
        pattern: rows(&["#", "#", "#", "#"]),
        key: vec![('#', tag_key("minecraft:planks"))],
        result: ItemStacks::Single(stack("minecraft:x", None, None)),
    };
    assert!(matches!(LootTable::from_shaped(t), Err(InvertError::MalformedPattern)));
}

#[test]
fn empty_result_list_is_refused_when_tagged() {
    let c = component(
        "minecraft:none",
        &[],
        Data::Shaped(Shaped {
            pattern: rows(&["#"]),
            key: vec![('#', tag_key("minecraft:planks"))],
            result: ItemStacks::Multiple(vec![]),
        }),
    );
    assert!(matches!(c.inverse("x"), Err(InvertError::EmptyResult)));
}

#[test]
fn over_capacity_layout_is_refused() {
    assert!(matches!(
        Shaped::create_pattern(&stack("minecraft:x", None, Some(10))),
        Err(InvertError::OverCapacity { .. })
    ));
    let s = Shaped {
        pattern: rows(&["#"]),
        key: vec![('#', item_key("minecraft:stone"))],
        result: ItemStacks::Multiple(vec![
            stack("minecraft:bucket", None, Some(5)),
            stack("minecraft:bucket", None, Some(5)),
        ]),
    };
    match s.inverse() {
        Err(InvertError::OverCapacity { item }) => assert_eq!(item, "minecraft:bucket"),
        _ => panic!("expected over capacity"),
    }
}

#[test]
fn inversion_is_deterministic() {
    let a = invert(furnace_recipe());
    let b = invert(furnace_recipe());
    assert_eq!(format!("{:?}", a.recipe), format!("{:?}", b.recipe));
}

#[test]
fn tag_table_lists_known_tags() {
    assert_eq!(expand("minecraft:planks").unwrap().len(), 11);
    assert_eq!(expand("minecraft:wooden_slabs").unwrap().len(), 9);
    assert_eq!(expand("minecraft:stone_crafting_materials").unwrap().len(), 3);
    assert_eq!(expand("minecraft:stone_tool_materials").unwrap().len(), 3);
    assert_eq!(expand("minecraft:logs").unwrap().len(), 42);
    assert_eq!(expand("minecraft:coals").unwrap(), vec!["minecraft:coal".to_string(), "minecraft:charcoal".to_string()]);
    assert_eq!(expand("minecraft:soul_fire_base_blocks").unwrap().len(), 2);
    assert_eq!(expand("minecraft:wool").unwrap().len(), 16);
    assert!(expand("minecraft:plank").is_none());
    assert!(expand("").is_none());
}

#[test]
fn tag_pool_has_one_entry_per_member() {
    let p = Pool::from_item_tag(&ItemTag { tag: "minecraft:wool".to_string() }, 3).unwrap();
    assert_eq!(p.entries.len(), 16);
    assert!(p.entries.iter().all(|e| e.weight == 1 && entry_count_and_data(e) == (3, 0)));
    assert!(matches!(
        Pool::from_item_tag(&ItemTag { tag: "wool".to_string() }, 1),
        Err(InvertError::UnknownTag { .. })
    ));
}

#[test]
fn item_pools_default_count_and_data() {
    let t = LootTable::from_vec_ingredient(vec![
        Ingredient::Item(stack("minecraft:stick", None, None)),
        Ingredient::Item(stack("minecraft:dye", Some(4), Some(2))),
    ])
    .unwrap();
    assert_eq!(t.pools.len(), 2);
    assert_eq!(t.pools[0].entries[0].name, "minecraft:stick");
    assert_eq!(entry_count_and_data(&t.pools[0].entries[0]), (1, 0));
    assert_eq!(entry_count_and_data(&t.pools[1].entries[0]), (2, 4));
    let e = Entry::from_item_stack(&stack("minecraft:x", Some(7), None));
    assert_eq!(entry_count_and_data(&e), (1, 7));
}

#[test]
fn identifiers_are_rewritten() {
    assert_eq!(mq_decrafting_item("minecraft:oak_planks"), "mq_decrafting_item:oak_planks");
    assert_eq!(mq_decrafting_item("other:thing"), "mq_decrafting_item:other:thing");
    assert_eq!(decrafting_recipe_id("minecraft:furnace"), "mq_decrafting_table:furnace");
    assert_eq!(decrafting_recipe_id("other:furnace"), "other:furnace");
    assert_eq!(placeholder_name("mq_decrafting_item:oak_planks"), "oak_planks");
}

#[test]
fn grid_engine_places_and_counts() {
    let g = layout(&vec!['#'; 5]);
    assert_eq!(g, rows(&["###", "##", ""]));
    assert_eq!(count_symbol_in(&g, '#'), 5);
    assert_eq!(count_symbol_in(&rows(&["# #", " # ", "#  "]), '#'), 4);
    assert_eq!(count_symbol_in(&rows(&["AB", "BA"]), 'C'), 0);
    assert_eq!(layout(&vec![]), rows(&["", "", ""]));
}
