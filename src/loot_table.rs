//! Loot tables: pools of equally weighted entries, one pool per ingredient.
use vstd::prelude::*;
use crate::error::{collect, lemma_collect_err_prefix, ErrV, InvertError};
use crate::item::{ingredients_view, Ingredient, IngredientV, ItemStack, ItemTag, Key, KeyV, StackV};
use crate::pattern::{count_symbol, count_symbol_in, pattern_fits, pattern_is_well_formed};
use crate::recipe::{keys_are_unique, keys_unique, keys_view, Shaped, ShapedV};
use crate::tags::{expand, tag_members};
use crate::text::strings_view;

verus! {

/// The adjustment that sets the count of a drawn item.
#[derive(Debug)]
pub struct SetCount {
    pub function: String,
    pub count: u8,
}

/// The adjustment that sets the data value of a drawn item.
#[derive(Debug)]
pub struct SetData {
    pub function: String,
    pub data: u8,
}

/// An adjustment applied to a drawn item.
#[derive(Debug)]
pub enum Function {
    SetCount(SetCount),
    SetData(SetData),
}

/// One item a pool may draw, with its weight and adjustments.
#[derive(Debug)]
pub struct Entry {
    pub ty: String,
    pub weight: u8,
    pub name: String,
    pub functions: [Function; 2],
}

/// A draw of one entry among several.
#[derive(Debug)]
pub struct Pool {
    pub rolls: u8,
    pub entries: Vec<Entry>,
}

/// A sequence of pools, each drawn once.
#[derive(Debug)]
pub struct LootTable {
    pub pools: Vec<Pool>,
}

pub ghost enum FunctionV {
    SetCount { function: Seq<char>, count: u8 },
    SetData { function: Seq<char>, data: u8 },
}

pub ghost struct EntryV {
    pub ty: Seq<char>,
    pub weight: u8,
    pub name: Seq<char>,
    pub functions: Seq<FunctionV>,
}

pub ghost struct PoolV {
    pub rolls: u8,
    pub entries: Seq<EntryV>,
}

pub ghost struct LootV {
    pub pools: Seq<PoolV>,
}

impl View for Function {
    type V = FunctionV;

    open spec fn view(&self) -> FunctionV {
        match self {
            Function::SetCount(f) => FunctionV::SetCount { function: f.function@, count: f.count },
            Function::SetData(f) => FunctionV::SetData { function: f.function@, data: f.data },
        }
    }
}

impl View for Entry {
    type V = EntryV;

    open spec fn view(&self) -> EntryV {
        EntryV {
            ty: self.ty@,
            weight: self.weight,
            name: self.name@,
            functions: self.functions@.map_values(|f: Function| f@),
        }
    }
}

impl View for Pool {
    type V = PoolV;

    open spec fn view(&self) -> PoolV {
        PoolV { rolls: self.rolls, entries: entries_view(self.entries@) }
    }
}

impl View for LootTable {
    type V = LootV;

    open spec fn view(&self) -> LootV {
        LootV { pools: pools_view(self.pools@) }
    }
}

pub open spec fn entries_view(v: Seq<Entry>) -> Seq<EntryV> {
    v.map_values(|e: Entry| e@)
}

pub open spec fn pools_view(v: Seq<Pool>) -> Seq<PoolV> {
    v.map_values(|p: Pool| p@)
}

/// An item entry of weight one that sets the drawn item's count and data value.
pub open spec fn entry_of(name: Seq<char>, count: u8, data: u8) -> EntryV {
    EntryV {
        ty: "item"@,
        weight: 1,
        name,
        functions: seq![
            FunctionV::SetCount { function: "set_count"@, count },
            FunctionV::SetData { function: "set_data"@, data },
        ],
    }
}

/// The pool that always draws the given stack.
pub open spec fn stack_pool(s: StackV) -> PoolV {
    PoolV {
        rolls: 1,
        entries: seq![
            entry_of(
                s.item,
                match s.count {
                    Some(c) => c,
                    None => 1,
                },
                match s.data {
                    Some(d) => d,
                    None => 0,
                },
            ),
        ],
    }
}

/// The entries of a tag's members, in the table's order, each with the given count.
pub open spec fn member_entries(members: Seq<Seq<char>>, count: u8) -> Seq<EntryV> {
    members.map_values(|m: Seq<char>| entry_of(m, count, 0))
}

/// The pool that draws one member of a tag, each equally likely.
pub open spec fn tag_pool(tag: Seq<char>, count: u8) -> Result<PoolV, ErrV> {
    match tag_members(tag) {
        Some(members) => Ok(PoolV { rolls: 1, entries: member_entries(members, count) }),
        None => Err(ErrV::UnknownTag(tag)),
    }
}

/// The pool of one shapeless ingredient: a tag counts once.
pub open spec fn ingredient_pool(i: IngredientV) -> Result<PoolV, ErrV> {
    match i {
        IngredientV::Item(s) => Ok(stack_pool(s)),
        IngredientV::Tag(t) => tag_pool(t, 1),
    }
}

pub open spec fn ingredient_pool_fn() -> spec_fn(IngredientV) -> Result<PoolV, ErrV> {
    |i: IngredientV| ingredient_pool(i)
}

/// The pool of one key of a grid recipe, counted as often as its symbol occurs.
pub open spec fn key_pool(pattern: Seq<Seq<char>>, e: (char, KeyV)) -> Result<PoolV, ErrV> {
    let count = count_symbol(pattern, e.0) as u8;
    match e.1 {
        KeyV::Item(p) => Ok(stack_pool(StackV { item: p.item, data: p.data, count: Some(count) })),
        KeyV::Tag(t) => tag_pool(t, count),
    }
}

pub open spec fn key_pool_fn(pattern: Seq<Seq<char>>) -> spec_fn((char, KeyV)) -> Result<PoolV, ErrV> {
    |e: (char, KeyV)| key_pool(pattern, e)
}

/// The pools of a shapeless ingredient list, one per ingredient in order.
pub open spec fn ingredient_pools(ings: Seq<IngredientV>) -> Result<Seq<PoolV>, ErrV> {
    collect(ings, ingredient_pool_fn())
}

/// The pools of a grid recipe, one per key in order.
pub open spec fn shaped_pools(s: ShapedV) -> Result<Seq<PoolV>, ErrV> {
    if !pattern_fits(s.pattern) {
        Err(ErrV::MalformedPattern)
    } else if !keys_unique(s.key) {
        Err(ErrV::RepeatedSymbol)
    } else {
        collect(s.key, key_pool_fn(s.pattern))
    }
}

impl SetCount {
    pub fn new(count: u8) -> (r: SetCount)
        ensures
            r.function@ == "set_count"@,
            r.count == count,
    {
        SetCount { function: "set_count".to_owned(), count }
    }
}

impl SetData {
    pub fn new(data: u8) -> (r: SetData)
        ensures
            r.function@ == "set_data"@,
            r.data == data,
    {
        SetData { function: "set_data".to_owned(), data }
    }
}

impl Entry {
    /// An item entry of weight one setting count and data value.
    pub fn new(name: &str, count: u8, data: u8) -> (r: Entry)
        ensures
            r@ == entry_of(name@, count, data),
    {
        let r = Entry {
            ty: "item".to_owned(),
            weight: 1,
            name: name.to_owned(),
            functions: [Function::SetCount(SetCount::new(count)), Function::SetData(SetData::new(data))],
        };
        assert(r@.functions =~= entry_of(name@, count, data).functions);
        r
    }

    /// The entry of a stack: its count (one when absent) and data value (zero when absent).
    pub fn from_item_stack(item_stack: &ItemStack) -> (r: Entry)
        ensures
            r@ == stack_pool(item_stack@).entries[0],
    {
        Entry::new(
            item_stack.item.as_str(),
            match item_stack.count {
                Some(c) => c,
                None => 1,
            },
            match item_stack.data {
                Some(d) => d,
                None => 0,
            },
        )
    }
}

impl Pool {
    /// A pool drawn once over the given entries.
    pub fn new(entries: Vec<Entry>) -> (r: Pool)
        ensures
            r@ == (PoolV { rolls: 1, entries: entries_view(entries@) }),
    {
        Pool { rolls: 1, entries }
    }

    /// The pool that always draws the given stack.
    pub fn from_stack(item_stack: &ItemStack) -> (r: Pool)
        ensures
            r@ == stack_pool(item_stack@),
    {
        let r = Pool::new(vec![Entry::from_item_stack(item_stack)]);
        assert(r@.entries =~= stack_pool(item_stack@).entries);
        r
    }

    /// The pool over every member of a tag, each of weight one with the given count and data
    /// value zero; fails for a tag the table does not list.
    pub fn from_item_tag(value: &ItemTag, count: u8) -> (r: Result<Pool, InvertError>)
        ensures
            r matches Ok(p) ==> tag_pool(value@, count) == Ok::<PoolV, ErrV>(p@),
            r matches Err(e) ==> tag_pool(value@, count) == Err::<PoolV, ErrV>(e@),
    {
        match expand(value.tag.as_str()) {
            None => Err(InvertError::UnknownTag { tag: value.tag.clone() }),
            Some(names) => {
                let ghost members = strings_view(names@);
                let mut entries: Vec<Entry> = Vec::new();
                let mut k: usize = 0;
                while k < names.len()
                    invariant
                        k <= names@.len(),
                        members == strings_view(names@),
                        entries@.len() == k,
                        forall|j: int| 0 <= j < k ==> #[trigger] entries@[j]@ == entry_of(members[j], count, 0),
                    decreases names@.len() - k,
                {
                    entries.push(Entry::new(names[k].as_str(), count, 0));
                    k += 1;
                }
                assert(entries_view(entries@) =~= member_entries(members, count));
                Ok(Pool::new(entries))
            },
        }
    }
}

impl LootTable {
    /// One pool per ingredient, in order: a stack is drawn as it is, a tag as one of its
    /// members; fails with the first tag the table does not list.
    pub fn from_vec_ingredient(value: Vec<Ingredient>) -> (r: Result<LootTable, InvertError>)
        ensures
            r matches Ok(t) ==> ingredient_pools(ingredients_view(value@)) == Ok::<Seq<PoolV>, ErrV>(t@.pools),
            r matches Err(e) ==> ingredient_pools(ingredients_view(value@)) == Err::<Seq<PoolV>, ErrV>(e@),
    {
        let ghost s = ingredients_view(value@);
        let ghost f = ingredient_pool_fn();
        let mut pools: Vec<Pool> = Vec::new();
        let mut k: usize = 0;
        assert(pools_view(pools@) =~= Seq::<PoolV>::empty());
        assert(s.take(0).len() == 0);
        while k < value.len()
            invariant
                k <= value@.len(),
                s == ingredients_view(value@),
                f == ingredient_pool_fn(),
                collect(s.take(k as int), f) == Ok::<Seq<PoolV>, ErrV>(pools_view(pools@)),
            decreases value@.len() - k,
        {
            assert(s.take(k + 1).drop_last() =~= s.take(k as int));
            let pool = match &value[k] {
                Ingredient::Item(item_stack) => Pool::from_stack(item_stack),
                Ingredient::Tag(item_tag) => match Pool::from_item_tag(item_tag, 1) {
                    Ok(p) => p,
                    Err(e) => {
                        proof {
                            lemma_collect_err_prefix(s, f, k + 1);
                        }
                        return Err(e);
                    },
                },
            };
            pools.push(pool);
            k += 1;
            assert(pools_view(pools@) =~= collect(s.take(k as int), f)->Ok_0);
        }
        assert(s.take(k as int) =~= s);
        Ok(LootTable { pools })
    }

    /// One pool per key of a grid recipe, in order, each counted as often as its symbol
    /// occurs in the pattern; fails on a pattern that does not fit a grid, on a symbol keyed
    /// twice, or with the first tag the table does not list.
    pub fn from_shaped(shaped: Shaped) -> (r: Result<LootTable, InvertError>)
        ensures
            r matches Ok(t) ==> shaped_pools(shaped@) == Ok::<Seq<PoolV>, ErrV>(t@.pools),
            r matches Err(e) ==> shaped_pools(shaped@) == Err::<Seq<PoolV>, ErrV>(e@),
    {
        if !pattern_is_well_formed(&shaped.pattern) {
            return Err(InvertError::MalformedPattern);
        }
        if !keys_are_unique(&shaped.key) {
            return Err(InvertError::RepeatedSymbol);
        }
        let ghost s = keys_view(shaped.key@);
        let ghost f = key_pool_fn(strings_view(shaped.pattern@));
        let mut pools: Vec<Pool> = Vec::new();
        let mut k: usize = 0;
        assert(pools_view(pools@) =~= Seq::<PoolV>::empty());
        assert(s.take(0).len() == 0);
        while k < shaped.key.len()
            invariant
                k <= shaped.key@.len(),
                s == keys_view(shaped.key@),
                f == key_pool_fn(strings_view(shaped.pattern@)),
                pattern_fits(strings_view(shaped.pattern@)),
                keys_unique(s),
                collect(s.take(k as int), f) == Ok::<Seq<PoolV>, ErrV>(pools_view(pools@)),
            decreases shaped.key@.len() - k,
        {
            assert(s.take(k + 1).drop_last() =~= s.take(k as int));
            let (symbol, key) = &shaped.key[k];
            let count = count_symbol_in(&shaped.pattern, *symbol);
            let pool = match key {
                Key::Item(pair) => {
                    let stack = ItemStack { item: pair.item.clone(), data: pair.data, count: Some(count) };
                    Pool::from_stack(&stack)
                },
                Key::Tag(item_tag) => match Pool::from_item_tag(item_tag, count) {
                    Ok(p) => p,
                    Err(e) => {
                        proof {
                            lemma_collect_err_prefix(s, f, k + 1);
                        }
                        return Err(e);
                    },
                },
            };
            pools.push(pool);
            k += 1;
            assert(pools_view(pools@) =~= collect(s.take(k as int), f)->Ok_0);
        }
        assert(s.take(k as int) =~= s);
        Ok(LootTable { pools })
    }
}

} // verus!
