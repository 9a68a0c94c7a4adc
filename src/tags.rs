//! The tag expansion table: each known item category and the concrete items it stands for.
use vstd::prelude::*;
use crate::text::{str_eq, strings_view};

verus! {

/// The members of `minecraft:planks`, in order.
pub open spec fn planks_members() -> Seq<Seq<char>> {
    seq![
        "minecraft:oak_planks"@,
        "minecraft:spruce_planks"@,
        "minecraft:birch_planks"@,
        "minecraft:jungle_planks"@,
        "minecraft:acacia_planks"@,
        "minecraft:dark_oak_planks"@,
        "minecraft:mangrove_planks"@,
        "minecraft:cherry_planks"@,
        "minecraft:bamboo_planks"@,
        "minecraft:crimson_planks"@,
        "minecraft:warped_planks"@,
    ]
}

/// The members of `minecraft:wooden_slabs`, in order.
pub open spec fn wooden_slabs_members() -> Seq<Seq<char>> {
    seq![
        "minecraft:oak_slab"@,
        "minecraft:spruce_slab"@,
        "minecraft:birch_slab"@,
        "minecraft:jungle_slab"@,
        "minecraft:acacia_slab"@,
        "minecraft:dark_oak_slab"@,
        "minecraft:mangrove_slab"@,
        "minecraft:cherry_slab"@,
        "minecraft:bamboo_slab"@,
    ]
}

/// The members of `minecraft:stone_crafting_materials` and `minecraft:stone_tool_materials`, in order.
pub open spec fn stone_crafting_materials_members() -> Seq<Seq<char>> {
    seq![
        "minecraft:cobblestone"@,
        "minecraft:cobbled_deepslate"@,
        "minecraft:blackstone"@,
    ]
}

/// The members of `minecraft:logs`, in order.
pub open spec fn logs_members() -> Seq<Seq<char>> {
    seq![
        "minecraft:oak_wood"@,
        "minecraft:stripped_oak_wood"@,
        "minecraft:spruce_wood"@,
        "minecraft:stripped_spruce_wood"@,
        "minecraft:birch_wood"@,
        "minecraft:stripped_birch_wood"@,
        "minecraft:jungle_wood"@,
        "minecraft:stripped_jungle_wood"@,
        "minecraft:acacia_wood"@,
        "minecraft:stripped_acacia_wood"@,
        "minecraft:dark_oak_wood"@,
        "minecraft:stripped_dark_oak_wood"@,
        "minecraft:mangrove_wood"@,
        "minecraft:stripped_mangrove_wood"@,
        "minecraft:cherry_wood"@,
        "minecraft:stripped_cherry_wood"@,
        "minecraft:crimson_hyphae"@,
        "minecraft:warped_hyphae"@,
        "minecraft:stripped_crimson_hyphae"@,
        "minecraft:stripped_warped_hyphae"@,
        "minecraft:oak_log"@,
        "minecraft:spruce_log"@,
        "minecraft:birch_log"@,
        "minecraft:jungle_log"@,
        "minecraft:acacia_log"@,
        "minecraft:dark_oak_log"@,
        "minecraft:mangrove_log"@,
        "minecraft:cherry_log"@,
        "minecraft:crimson_stem"@,
        "minecraft:warped_stem"@,
        "minecraft:stripped_spruce_log"@,
        "minecraft:stripped_birch_log"@,
        "minecraft:stripped_jungle_log"@,
        "minecraft:stripped_acacia_log"@,
        "minecraft:stripped_dark_oak_log"@,
        "minecraft:stripped_oak_log"@,
        "minecraft:stripped_mangrove_log"@,
        "minecraft:stripped_cherry_log"@,
        "minecraft:stripped_crimson_stem"@,
        "minecraft:stripped_warped_stem"@,
        "minecraft:bamboo_block"@,
        "minecraft:stripped_bamboo_block"@,
    ]
}

/// The members of `minecraft:coals`, in order.
pub open spec fn coals_members() -> Seq<Seq<char>> {
    seq![
        "minecraft:coal"@,
        "minecraft:charcoal"@,
    ]
}

/// The members of `minecraft:soul_fire_base_blocks`, in order.
pub open spec fn soul_fire_base_blocks_members() -> Seq<Seq<char>> {
    seq![
        "minecraft:soul_sand"@,
        "minecraft:soul_soil"@,
    ]
}

/// The members of `minecraft:wool`, in order.
pub open spec fn wool_members() -> Seq<Seq<char>> {
    seq![
        "minecraft:white_wool"@,
        "minecraft:orange_wool"@,
        "minecraft:magenta_wool"@,
        "minecraft:light_blue_wool"@,
        "minecraft:yellow_wool"@,
        "minecraft:lime_wool"@,
        "minecraft:pink_wool"@,
        "minecraft:gray_wool"@,
        "minecraft:light_gray_wool"@,
        "minecraft:cyan_wool"@,
        "minecraft:purple_wool"@,
        "minecraft:blue_wool"@,
        "minecraft:brown_wool"@,
        "minecraft:green_wool"@,
        "minecraft:red_wool"@,
        "minecraft:black_wool"@,
    ]
}

/// The concrete items a tag stands for, in order; `None` for a tag the table does not list.
pub open spec fn tag_members(tag: Seq<char>) -> Option<Seq<Seq<char>>> {
    if tag == "minecraft:planks"@ {
        Some(planks_members())
    } else if tag == "minecraft:wooden_slabs"@ {
        Some(wooden_slabs_members())
    } else if tag == "minecraft:stone_crafting_materials"@ || tag == "minecraft:stone_tool_materials"@ {
        Some(stone_crafting_materials_members())
    } else if tag == "minecraft:logs"@ {
        Some(logs_members())
    } else if tag == "minecraft:coals"@ {
        Some(coals_members())
    } else if tag == "minecraft:soul_fire_base_blocks"@ {
        Some(soul_fire_base_blocks_members())
    } else if tag == "minecraft:wool"@ {
        Some(wool_members())
    } else {
        None
    }
}


fn planks() -> (r: Vec<String>)
    ensures
        strings_view(r@) == planks_members(),
{
    let r = vec![
        "minecraft:oak_planks".to_owned(),
        "minecraft:spruce_planks".to_owned(),
        "minecraft:birch_planks".to_owned(),
        "minecraft:jungle_planks".to_owned(),
        "minecraft:acacia_planks".to_owned(),
        "minecraft:dark_oak_planks".to_owned(),
        "minecraft:mangrove_planks".to_owned(),
        "minecraft:cherry_planks".to_owned(),
        "minecraft:bamboo_planks".to_owned(),
        "minecraft:crimson_planks".to_owned(),
        "minecraft:warped_planks".to_owned(),
    ];
    assert(strings_view(r@) =~= planks_members());
    r
}

fn wooden_slabs() -> (r: Vec<String>)
    ensures
        strings_view(r@) == wooden_slabs_members(),
{
    let r = vec![
        "minecraft:oak_slab".to_owned(),
        "minecraft:spruce_slab".to_owned(),
        "minecraft:birch_slab".to_owned(),
        "minecraft:jungle_slab".to_owned(),
        "minecraft:acacia_slab".to_owned(),
        "minecraft:dark_oak_slab".to_owned(),
        "minecraft:mangrove_slab".to_owned(),
        "minecraft:cherry_slab".to_owned(),
        "minecraft:bamboo_slab".to_owned(),
    ];
    assert(strings_view(r@) =~= wooden_slabs_members());
    r
}

fn stone_crafting_materials() -> (r: Vec<String>)
    ensures
        strings_view(r@) == stone_crafting_materials_members(),
{
    let r = vec![
        "minecraft:cobblestone".to_owned(),
        "minecraft:cobbled_deepslate".to_owned(),
        "minecraft:blackstone".to_owned(),
    ];
    assert(strings_view(r@) =~= stone_crafting_materials_members());
    r
}

fn logs() -> (r: Vec<String>)
    ensures
        strings_view(r@) == logs_members(),
{
    let r = vec![
        "minecraft:oak_wood".to_owned(),
        "minecraft:stripped_oak_wood".to_owned(),
        "minecraft:spruce_wood".to_owned(),
        "minecraft:stripped_spruce_wood".to_owned(),
        "minecraft:birch_wood".to_owned(),
        "minecraft:stripped_birch_wood".to_owned(),
        "minecraft:jungle_wood".to_owned(),
        "minecraft:stripped_jungle_wood".to_owned(),
        "minecraft:acacia_wood".to_owned(),
        "minecraft:stripped_acacia_wood".to_owned(),
        "minecraft:dark_oak_wood".to_owned(),
        "minecraft:stripped_dark_oak_wood".to_owned(),
        "minecraft:mangrove_wood".to_owned(),
        "minecraft:stripped_mangrove_wood".to_owned(),
        "minecraft:cherry_wood".to_owned(),
        "minecraft:stripped_cherry_wood".to_owned(),
        "minecraft:crimson_hyphae".to_owned(),
        "minecraft:warped_hyphae".to_owned(),
        "minecraft:stripped_crimson_hyphae".to_owned(),
        "minecraft:stripped_warped_hyphae".to_owned(),
        "minecraft:oak_log".to_owned(),
        "minecraft:spruce_log".to_owned(),
        "minecraft:birch_log".to_owned(),
        "minecraft:jungle_log".to_owned(),
        "minecraft:acacia_log".to_owned(),
        "minecraft:dark_oak_log".to_owned(),
        "minecraft:mangrove_log".to_owned(),
        "minecraft:cherry_log".to_owned(),
        "minecraft:crimson_stem".to_owned(),
        "minecraft:warped_stem".to_owned(),
        "minecraft:stripped_spruce_log".to_owned(),
        "minecraft:stripped_birch_log".to_owned(),
        "minecraft:stripped_jungle_log".to_owned(),
        "minecraft:stripped_acacia_log".to_owned(),
        "minecraft:stripped_dark_oak_log".to_owned(),
        "minecraft:stripped_oak_log".to_owned(),
        "minecraft:stripped_mangrove_log".to_owned(),
        "minecraft:stripped_cherry_log".to_owned(),
        "minecraft:stripped_crimson_stem".to_owned(),
        "minecraft:stripped_warped_stem".to_owned(),
        "minecraft:bamboo_block".to_owned(),
        "minecraft:stripped_bamboo_block".to_owned(),
    ];
    assert(strings_view(r@) =~= logs_members());
    r
}

fn coals() -> (r: Vec<String>)
    ensures
        strings_view(r@) == coals_members(),
{
    let r = vec![
        "minecraft:coal".to_owned(),
        "minecraft:charcoal".to_owned(),
    ];
    assert(strings_view(r@) =~= coals_members());
    r
}

fn soul_fire_base_blocks() -> (r: Vec<String>)
    ensures
        strings_view(r@) == soul_fire_base_blocks_members(),
{
    let r = vec![
        "minecraft:soul_sand".to_owned(),
        "minecraft:soul_soil".to_owned(),
    ];
    assert(strings_view(r@) =~= soul_fire_base_blocks_members());
    r
}

fn wool() -> (r: Vec<String>)
    ensures
        strings_view(r@) == wool_members(),
{
    let r = vec![
        "minecraft:white_wool".to_owned(),
        "minecraft:orange_wool".to_owned(),
        "minecraft:magenta_wool".to_owned(),
        "minecraft:light_blue_wool".to_owned(),
        "minecraft:yellow_wool".to_owned(),
        "minecraft:lime_wool".to_owned(),
        "minecraft:pink_wool".to_owned(),
        "minecraft:gray_wool".to_owned(),
        "minecraft:light_gray_wool".to_owned(),
        "minecraft:cyan_wool".to_owned(),
        "minecraft:purple_wool".to_owned(),
        "minecraft:blue_wool".to_owned(),
        "minecraft:brown_wool".to_owned(),
        "minecraft:green_wool".to_owned(),
        "minecraft:red_wool".to_owned(),
        "minecraft:black_wool".to_owned(),
    ];
    assert(strings_view(r@) =~= wool_members());
    r
}

/// The concrete items of a tag, as the table lists them; `None` for an unknown tag.
pub fn expand(tag: &str) -> (r: Option<Vec<String>>)
    ensures
        r is Some <==> tag_members(tag@) is Some,
        r is Some ==> Some(strings_view(r->0@)) == tag_members(tag@),
{
    if str_eq(tag, "minecraft:planks") {
        Some(planks())
    } else if str_eq(tag, "minecraft:wooden_slabs") {
        Some(wooden_slabs())
    } else if str_eq(tag, "minecraft:stone_crafting_materials") || str_eq(tag, "minecraft:stone_tool_materials") {
        Some(stone_crafting_materials())
    } else if str_eq(tag, "minecraft:logs") {
        Some(logs())
    } else if str_eq(tag, "minecraft:coals") {
        Some(coals())
    } else if str_eq(tag, "minecraft:soul_fire_base_blocks") {
        Some(soul_fire_base_blocks())
    } else if str_eq(tag, "minecraft:wool") {
        Some(wool())
    } else {
        None
    }
}

} // verus!
