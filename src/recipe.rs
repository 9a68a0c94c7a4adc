//! Recipes and their inversion.
use vstd::prelude::*;
use crate::error::{collect, lemma_collect_err_prefix, ErrV, InvertError};
use crate::item::{
    first_stack, ingredients_view, is_tag_ingredient, is_tag_key, pair_of, stack_count,
    placeholder_stack, stacks_as_ingredients, stacks_view, total_count, IngredientV, Ingredient,
    ItemStack, ItemStacks, Key, KeyV, PairV, StackV, StacksV,
};
use crate::pattern::{
    count_symbol, count_symbol_in, grid_of, layout, pattern_fits, pattern_is_well_formed, repeat,
    GRID_CELLS,
};
use crate::loot_table::{ingredient_pools, shaped_pools, LootTable, LootV};
use crate::text::{mq_decrafting_item, placeholder_id, str_eq, strings_view};

verus! {

/// The identifier of a recipe.
#[derive(Debug)]
pub struct Description {
    pub identifier: String,
}

/// A grid recipe: up to three rows of symbols, what each symbol stands for, and the result.
#[derive(Debug)]
pub struct Shaped {
    pub pattern: Vec<String>,
    pub key: Vec<(char, Key)>,
    pub result: ItemStacks,
}

/// A recipe of an ingredient list in no particular position, and one result stack.
#[derive(Debug)]
pub struct Shapeless {
    pub ingredients: Vec<Ingredient>,
    pub result: ItemStack,
}

/// The body of a recipe.
#[derive(Debug)]
pub enum Data {
    Shaped(Shaped),
    Shapeless(Shapeless),
}

/// When a recipe becomes available to the player.
#[derive(Debug)]
pub struct Unlock {
    pub context: String,
}

/// A recipe with its identifier, tags, unlock condition and priority.
#[derive(Debug)]
pub struct RecipeComponent {
    pub description: Description,
    pub unlock: Option<Unlock>,
    pub tags: Vec<String>,
    pub data: Data,
    pub priority: Option<i8>,
}

/// Why a recipe is passed over without error.
#[derive(Debug, Clone, Copy, PartialEq, Eq, Structural)]
pub enum Skip {
    /// Its identifier was already handled in this batch.
    Duplicate,
    /// It carries the "deprecated" tag.
    Deprecated,
}

/// A recipe document: its format version and the recipe it holds, if any.
#[derive(Debug)]
pub struct Recipe {
    pub format_version: String,
    pub component: Option<RecipeComponent>,
}

pub ghost struct ShapedV {
    pub pattern: Seq<Seq<char>>,
    pub key: Seq<(char, KeyV)>,
    pub result: StacksV,
}

pub ghost struct ShapelessV {
    pub ingredients: Seq<IngredientV>,
    pub result: StackV,
}

pub ghost enum DataV {
    Shaped(ShapedV),
    Shapeless(ShapelessV),
}

pub ghost struct ComponentV {
    pub identifier: Seq<char>,
    pub unlock: Option<Seq<char>>,
    pub tags: Seq<Seq<char>>,
    pub data: DataV,
    pub priority: Option<i8>,
}

pub ghost struct RecipeV {
    pub format_version: Seq<char>,
    pub component: Option<ComponentV>,
}

pub open spec fn keys_view(key: Seq<(char, Key)>) -> Seq<(char, KeyV)> {
    key.map_values(|e: (char, Key)| (e.0, e.1@))
}

impl View for Shaped {
    type V = ShapedV;

    open spec fn view(&self) -> ShapedV {
        ShapedV { pattern: strings_view(self.pattern@), key: keys_view(self.key@), result: self.result@ }
    }
}

impl View for Shapeless {
    type V = ShapelessV;

    open spec fn view(&self) -> ShapelessV {
        ShapelessV { ingredients: ingredients_view(self.ingredients@), result: self.result@ }
    }
}

impl View for Data {
    type V = DataV;

    open spec fn view(&self) -> DataV {
        match self {
            Data::Shaped(s) => DataV::Shaped(s@),
            Data::Shapeless(s) => DataV::Shapeless(s@),
        }
    }
}

impl View for RecipeComponent {
    type V = ComponentV;

    open spec fn view(&self) -> ComponentV {
        ComponentV {
            identifier: self.description.identifier@,
            unlock: match self.unlock {
                Some(u) => Some(u.context@),
                None => None,
            },
            tags: strings_view(self.tags@),
            data: self.data@,
            priority: self.priority,
        }
    }
}

impl View for Recipe {
    type V = RecipeV;

    open spec fn view(&self) -> RecipeV {
        RecipeV {
            format_version: self.format_version@,
            component: match self.component {
                Some(c) => Some(c@),
                None => None,
            },
        }
    }
}

/// The symbols given to the stacks of a result list, in order.
pub open spec fn grid_symbols() -> Seq<char> {
    seq!['A', 'B', 'C', 'D', 'E', 'F', 'G', 'H', 'I']
}

/// A grid recipe that fits the grid: at most three rows of at most three symbols, and no
/// symbol keyed twice.
pub open spec fn shaped_wf(s: ShapedV) -> bool {
    pattern_fits(s.pattern) && keys_unique(s.key)
}

/// No symbol is keyed twice.
pub open spec fn keys_unique(key: Seq<(char, KeyV)>) -> bool {
    forall|i: int, j: int|
        #![trigger key[i], key[j]]
        0 <= i < j < key.len() ==> key[i].0 != key[j].0
}

/// Whether no symbol of a grid key is keyed twice.
pub fn keys_are_unique(key: &Vec<(char, Key)>) -> (r: bool)
    ensures
        r == keys_unique(keys_view(key@)),
{
    let ghost kv = keys_view(key@);
    let mut j: usize = 0;
    while j < key.len()
        invariant
            j <= key@.len(),
            kv == keys_view(key@),
            forall|a: int, b: int| #![trigger kv[a], kv[b]] 0 <= a < b < j ==> kv[a].0 != kv[b].0,
        decreases key@.len() - j,
    {
        let mut i: usize = 0;
        while i < j
            invariant
                i <= j < key@.len(),
                kv == keys_view(key@),
                forall|a: int, b: int| #![trigger kv[a], kv[b]] 0 <= a < b < j ==> kv[a].0 != kv[b].0,
                forall|a: int| #![trigger kv[a]] 0 <= a < i ==> kv[a].0 != kv[j as int].0,
            decreases j - i,
        {
            if key[i].0 == key[j].0 {
                assert(kv[i as int].0 == kv[j as int].0);
                return false;
            }
            i += 1;
        }
        j += 1;
    }
    true
}

/// The symbols of a result list are all different.
pub proof fn lemma_grid_symbols_distinct()
    ensures
        grid_symbols().len() == 9,
        forall|i: int, j: int|
            #![trigger grid_symbols()[i], grid_symbols()[j]]
            0 <= i < j < 9 ==> grid_symbols()[i] != grid_symbols()[j],
{
    let g = grid_symbols();
    assert forall|i: int| 0 <= i < 9 implies #[trigger] g[i] as u32 == 65 + i by {
        if i == 0 {
        } else if i == 1 {
        } else if i == 2 {
        } else if i == 3 {
        } else if i == 4 {
        } else if i == 5 {
        } else if i == 6 {
        } else if i == 7 {
        } else {
        }
    }
}

/// A result that can be laid out gives a grid recipe that fits the grid.
pub proof fn lemma_result_layout_wf(r: StacksV, result: StacksV)
    requires
        result_layout(r) is Ok,
    ensures
        shaped_wf(ShapedV { pattern: result_layout(r)->Ok_0.0, key: result_layout(r)->Ok_0.1, result }),
{
    match r {
        StacksV::Single(s) => {},
        StacksV::Multiple(v) => {
            if v.len() > 0 {
                assert(result_marks(v).len() <= 9);
            }
            lemma_grid_symbols_distinct();
            let key = result_layout(r)->Ok_0.1;
            assert forall|i: int, j: int| #![trigger key[i], key[j]] 0 <= i < j < key.len() implies key[i].0 != key[j].0 by {
                assert(grid_symbols()[i] != grid_symbols()[j]);
            }
        },
    }
}

/// The one item that does not stack: each unit takes a cell, or an entry, of its own.
pub open spec fn bucket_id() -> Seq<char> {
    "minecraft:bucket"@
}

/// The cells a stack of a result list takes under symbol `sym`: one per unit for the
/// bucket with a count, else one.
pub open spec fn item_marks(s: StackV, sym: char) -> Seq<char> {
    if s.item == bucket_id() && s.count is Some {
        repeat(sym, s.count->0 as nat)
    } else {
        seq![sym]
    }
}

/// The cells of a whole result list, stack after stack.
pub open spec fn result_marks(v: Seq<StackV>) -> Seq<char>
    decreases v.len(),
{
    if v.len() == 0 {
        Seq::empty()
    } else {
        result_marks(v.drop_last()) + item_marks(v.last(), grid_symbols()[v.len() - 1])
    }
}

/// The first stack of a result list at which the grid runs out of symbols or cells.
pub open spec fn overflow_item(v: Seq<StackV>) -> Option<Seq<char>>
    decreases v.len(),
{
    if v.len() == 0 {
        None
    } else {
        match overflow_item(v.drop_last()) {
            Some(x) => Some(x),
            None => if v.len() > 9 || result_marks(v).len() > 9 {
                Some(v.last().item)
            } else {
                None
            },
        }
    }
}

/// The key of a laid-out result list: the i-th symbol stands for the i-th stack.
pub open spec fn result_keys(v: Seq<StackV>) -> Seq<(char, KeyV)> {
    Seq::new(v.len(), |i: int| (grid_symbols()[i], KeyV::Item(pair_of(v[i]))))
}

/// The grid of a single stack: one '#' per unit.
pub open spec fn stack_layout(s: StackV) -> Result<Seq<Seq<char>>, ErrV> {
    if stack_count(s) > 9 {
        Err(ErrV::OverCapacity(s.item))
    } else {
        Ok(grid_of(repeat('#', stack_count(s))))
    }
}

/// The grid and key that lay out a recipe result as the ingredients of a new grid recipe.
pub open spec fn result_layout(r: StacksV) -> Result<(Seq<Seq<char>>, Seq<(char, KeyV)>), ErrV> {
    match r {
        StacksV::Single(s) => match stack_layout(s) {
            Ok(g) => Ok((g, seq![('#', KeyV::Item(pair_of(s)))])),
            Err(e) => Err(e),
        },
        StacksV::Multiple(v) => match overflow_item(v) {
            Some(item) => Err(ErrV::OverCapacity(item)),
            None => Ok((grid_of(result_marks(v)), result_keys(v))),
        },
    }
}

/// A key that must be a concrete item.
pub open spec fn key_item(e: (char, KeyV)) -> Result<PairV, ErrV> {
    match e.1 {
        KeyV::Item(p) => Ok(p),
        KeyV::Tag(t) => Err(ErrV::TagInItemPosition(t)),
    }
}

pub open spec fn key_item_fn() -> spec_fn((char, KeyV)) -> Result<PairV, ErrV> {
    |e: (char, KeyV)| key_item(e)
}

/// An ingredient that must be a concrete item.
pub open spec fn ingredient_stack(i: IngredientV) -> Result<StackV, ErrV> {
    match i {
        IngredientV::Item(s) => Ok(s),
        IngredientV::Tag(t) => Err(ErrV::TagInItemPosition(t)),
    }
}

pub open spec fn ingredient_stack_fn() -> spec_fn(IngredientV) -> Result<StackV, ErrV> {
    |i: IngredientV| ingredient_stack(i)
}

pub open spec fn key_pair(e: (char, KeyV)) -> PairV {
    match e.1 {
        KeyV::Item(p) => p,
        KeyV::Tag(t) => PairV { item: t, data: None },
    }
}

/// Whether a key of the grid stands for more than one bucket.
pub open spec fn splits_buckets(pattern: Seq<Seq<char>>, e: (char, KeyV)) -> bool {
    key_pair(e).item == bucket_id() && count_symbol(pattern, e.0) > 1
}

/// The stack that a key of the grid gives back: its item counted as often as its symbol
/// occurs; the bucket, which does not stack, once.
pub open spec fn key_stack(pattern: Seq<Seq<char>>, e: (char, KeyV)) -> StackV {
    let p = key_pair(e);
    if splits_buckets(pattern, e) {
        StackV { item: p.item, data: p.data, count: None }
    } else {
        StackV { item: p.item, data: p.data, count: Some(count_symbol(pattern, e.0) as u8) }
    }
}

/// The further single buckets that a key of the grid gives back, one per unit beyond the first.
pub open spec fn key_extra_stacks(pattern: Seq<Seq<char>>, e: (char, KeyV)) -> Seq<StackV> {
    if splits_buckets(pattern, e) {
        Seq::new(
            (count_symbol(pattern, e.0) - 1) as nat,
            |i: int| StackV { item: bucket_id(), data: key_pair(e).data, count: None },
        )
    } else {
        Seq::empty()
    }
}

pub open spec fn key_stacks(pattern: Seq<Seq<char>>, key: Seq<(char, KeyV)>) -> Seq<StackV> {
    key.map_values(|e: (char, KeyV)| key_stack(pattern, e))
}

pub open spec fn key_extras(pattern: Seq<Seq<char>>, key: Seq<(char, KeyV)>) -> Seq<StackV>
    decreases key.len(),
{
    if key.len() == 0 {
        Seq::empty()
    } else {
        key_extras(pattern, key.drop_last()) + key_extra_stacks(pattern, key.last())
    }
}

/// The inverse of a grid recipe without tags: the old result laid out as the new grid, and
/// the old keys, counted over the pattern, as the new result list (the keys' stacks first,
/// then any further buckets).
pub open spec fn shaped_inverse(s: ShapedV) -> Result<ShapedV, ErrV> {
    if !pattern_fits(s.pattern) {
        Err(ErrV::MalformedPattern)
    } else if !keys_unique(s.key) {
        Err(ErrV::RepeatedSymbol)
    } else {
        match collect(s.key, key_item_fn()) {
            Err(e) => Err(e),
            Ok(_) => match result_layout(s.result) {
                Err(e) => Err(e),
                Ok(grid) => Ok(
                    ShapedV {
                        pattern: grid.0,
                        key: grid.1,
                        result: StacksV::Multiple(key_stacks(s.pattern, s.key) + key_extras(s.pattern, s.key)),
                    },
                ),
            },
        }
    }
}

/// The inverse of a shapeless recipe without tags: the old result laid out under '#', and
/// the old ingredients as the new result list.
pub open spec fn shapeless_inverse(s: ShapelessV) -> Result<ShapedV, ErrV> {
    match stack_layout(s.result) {
        Err(e) => Err(e),
        Ok(g) => match collect(s.ingredients, ingredient_stack_fn()) {
            Err(e) => Err(e),
            Ok(stacks) => Ok(
                ShapedV {
                    pattern: g,
                    key: seq![('#', KeyV::Item(pair_of(s.result)))],
                    result: StacksV::Multiple(stacks),
                },
            ),
        },
    }
}

impl Shaped {
    /// The grid of a single stack: one '#' per unit; fails beyond nine.
    pub fn create_pattern(item: &ItemStack) -> (r: Result<Vec<String>, InvertError>)
        ensures
            r matches Ok(g) ==> stack_layout(item@) == Ok::<Seq<Seq<char>>, ErrV>(strings_view(g@)),
            r matches Err(e) ==> stack_layout(item@) == Err::<Seq<Seq<char>>, ErrV>(e@),
    {
        let n = item.total();
        if n > 9 {
            return Err(InvertError::OverCapacity { item: item.item.clone() });
        }
        let mut marks: Vec<char> = Vec::new();
        let mut k: u8 = 0;
        while k < n
            invariant
                k <= n,
                marks@ =~= repeat('#', k as nat),
            decreases n - k,
        {
            marks.push('#');
            k += 1;
        }
        Ok(layout(&marks))
    }

    /// The grid and key that lay out a recipe result.
    fn layout_result(result: &ItemStacks) -> (r: Result<(Vec<String>, Vec<(char, Key)>), InvertError>)
        ensures
            r matches Ok(g) ==> result_layout(result@) == Ok::<(Seq<Seq<char>>, Seq<(char, KeyV)>), ErrV>(
                (strings_view(g.0@), keys_view(g.1@)),
            ),
            r matches Err(e) ==> result_layout(result@) == Err::<(Seq<Seq<char>>, Seq<(char, KeyV)>), ErrV>(e@),
    {
        match result {
            ItemStacks::Single(item) => {
                let g = Shaped::create_pattern(item)?;
                let key = vec![('#', Key::Item(item.to_pair()))];
                assert(keys_view(key@) =~= seq![('#', KeyV::Item(pair_of(item@)))]);
                Ok((g, key))
            },
            ItemStacks::Multiple(items) => {
                let ghost v = stacks_view(items@);
                let mut marks: Vec<char> = Vec::new();
                let mut key: Vec<(char, Key)> = Vec::new();
                let mut i: usize = 0;
                while i < items.len()
                    invariant
                        v == stacks_view(items@),
                        result@ == StacksV::Multiple(v),
                        i <= items@.len(),
                        i <= 9,
                        overflow_item(v.take(i as int)) is None,
                        marks@ == result_marks(v.take(i as int)),
                        marks@.len() <= 9,
                        key@.len() == i,
                        forall|j: int| 0 <= j < i ==> (#[trigger] key@[j]).0 == grid_symbols()[j] && key@[j].1@
                            == KeyV::Item(pair_of(v[j])),
                    decreases items@.len() - i,
                {
                    assert(v.take(i + 1).drop_last() =~= v.take(i as int));
                    let item = &items[i];
                    if i >= GRID_CELLS {
                        proof {
                            lemma_overflow_prefix(v, i + 1);
                        }
                        return Err(InvertError::OverCapacity { item: item.item.clone() });
                    }
                    let sym = symbol_at(i);
                    let units: u8 = match item.count {
                        Some(c) => if str_eq(item.item.as_str(), "minecraft:bucket") { c } else { 1 },
                        None => 1,
                    };
                    if marks.len() + units as usize > GRID_CELLS {
                        proof {
                            assert(item_marks(v[i as int], sym).len() == units);
                            lemma_overflow_prefix(v, i + 1);
                        }
                        return Err(InvertError::OverCapacity { item: item.item.clone() });
                    }
                    let mut u: u8 = 0;
                    while u < units
                        invariant
                            u <= units,
                            marks@ =~= result_marks(v.take(i as int)) + repeat(sym, u as nat),
                        decreases units - u,
                    {
                        marks.push(sym);
                        u += 1;
                    }
                    assert(item_marks(v[i as int], sym) =~= repeat(sym, units as nat));
                    key.push((sym, Key::Item(item.to_pair())));
                    i += 1;
                }
                assert(v.take(i as int) =~= v);
                assert(keys_view(key@) =~= result_keys(v));
                let g = layout(&marks);
                Ok((g, key))
            },
        }
    }

    /// The inverse of this recipe, whose keys must all be concrete items: see `shaped_inverse`.
    pub fn inverse(self) -> (r: Result<Shaped, InvertError>)
        ensures
            r matches Ok(n) ==> shaped_inverse(self@) == Ok::<ShapedV, ErrV>(n@),
            r matches Err(e) ==> shaped_inverse(self@) == Err::<ShapedV, ErrV>(e@),
            r matches Ok(n) ==> shaped_wf(n@),
    {
        if !pattern_is_well_formed(&self.pattern) {
            return Err(InvertError::MalformedPattern);
        }
        if !keys_are_unique(&self.key) {
            return Err(InvertError::RepeatedSymbol);
        }
        let ghost s = keys_view(self.key@);
        let ghost pattern = strings_view(self.pattern@);
        let ghost f = key_item_fn();
        let mut results: Vec<ItemStack> = Vec::new();
        let mut extras: Vec<ItemStack> = Vec::new();
        let mut k: usize = 0;
        assert(s.take(0).len() == 0);
        while k < self.key.len()
            invariant
                k <= self.key@.len(),
                s == keys_view(self.key@),
                pattern == strings_view(self.pattern@),
                f == key_item_fn(),
                pattern_fits(pattern),
                keys_unique(s),
                collect(s.take(k as int), f) is Ok,
                results@.len() == k,
                forall|j: int| 0 <= j < k ==> (#[trigger] results@[j])@ == key_stack(pattern, s[j]),
                stacks_view(extras@) =~= key_extras(pattern, s.take(k as int)),
            decreases self.key@.len() - k,
        {
            assert(s.take(k + 1).drop_last() =~= s.take(k as int));
            let (symbol, key) = &self.key[k];
            let pair = match key {
                Key::Item(p) => p,
                Key::Tag(t) => {
                    proof {
                        lemma_collect_err_prefix(s, f, k + 1);
                    }
                    return Err(InvertError::TagInItemPosition { tag: t.tag.clone() });
                },
            };
            let count = count_symbol_in(&self.pattern, *symbol);
            assert(s[k as int] == (*symbol, KeyV::Item(pair@)));
            assert(s.take(k + 1).last() == s[k as int]);
            if count > 1 && str_eq(pair.item.as_str(), "minecraft:bucket") {
                results.push(ItemStack { item: pair.item.clone(), data: pair.data, count: None });
                let mut more = bucket_extras(pair.data, count);
                assert(stacks_view(more@) =~= key_extra_stacks(pattern, s[k as int]));
                extras.append(&mut more);
            } else {
                results.push(ItemStack { item: pair.item.clone(), data: pair.data, count: Some(count) });
                assert(key_extra_stacks(pattern, s[k as int]) =~= Seq::<StackV>::empty());
            }
            k += 1;
        }
        assert(s.take(k as int) =~= s);
        assert(stacks_view(results@) =~= key_stacks(pattern, s));
        let (grid, key) = Shaped::layout_result(&self.result)?;
        let ghost before = results@;
        let ghost extra = extras@;
        results.append(&mut extras);
        assert(stacks_view(results@) =~= stacks_view(before) + stacks_view(extra));
        let r = Shaped { pattern: grid, key, result: ItemStacks::Multiple(results) };
        assert(r@.result == StacksV::Multiple(key_stacks(pattern, s) + key_extras(pattern, s)));
        proof {
            lemma_result_layout_wf(self.result@, r@.result);
        }
        Ok(r)
    }
}

impl Shapeless {
    /// The inverse of this recipe, whose ingredients must all be concrete items: see
    /// `shapeless_inverse`.
    pub fn inverse(self) -> (r: Result<Shaped, InvertError>)
        ensures
            r matches Ok(n) ==> shapeless_inverse(self@) == Ok::<ShapedV, ErrV>(n@),
            r matches Err(e) ==> shapeless_inverse(self@) == Err::<ShapedV, ErrV>(e@),
            r matches Ok(n) ==> shaped_wf(n@),
    {
        let grid = Shaped::create_pattern(&self.result)?;
        let ghost s = ingredients_view(self.ingredients@);
        let ghost f = ingredient_stack_fn();
        let mut stacks: Vec<ItemStack> = Vec::new();
        let mut k: usize = 0;
        assert(stacks_view(stacks@) =~= Seq::<StackV>::empty());
        assert(s.take(0).len() == 0);
        while k < self.ingredients.len()
            invariant
                k <= self.ingredients@.len(),
                s == ingredients_view(self.ingredients@),
                f == ingredient_stack_fn(),
                stack_layout(self.result@) == Ok::<Seq<Seq<char>>, ErrV>(strings_view(grid@)),
                collect(s.take(k as int), f) == Ok::<Seq<StackV>, ErrV>(stacks_view(stacks@)),
            decreases self.ingredients@.len() - k,
        {
            assert(s.take(k + 1).drop_last() =~= s.take(k as int));
            match &self.ingredients[k] {
                Ingredient::Item(item) => stacks.push(item.clone_stack()),
                Ingredient::Tag(t) => {
                    proof {
                        lemma_collect_err_prefix(s, f, k + 1);
                    }
                    return Err(InvertError::TagInItemPosition { tag: t.tag.clone() });
                },
            }
            k += 1;
            assert(stacks_view(stacks@) =~= collect(s.take(k as int), f)->Ok_0);
        }
        assert(s.take(k as int) =~= s);
        let key = vec![('#', Key::Item(self.result.to_pair()))];
        assert(keys_view(key@) =~= seq![('#', KeyV::Item(pair_of(self.result@)))]);
        proof {
            lemma_result_layout_wf(StacksV::Single(self.result@), StacksV::Multiple(stacks_view(stacks@)));
        }
        Ok(Shaped { pattern: grid, key, result: ItemStacks::Multiple(stacks) })
    }

    /// A shapeless recipe of the given ingredients and result.
    pub fn return_item(ingredients: Vec<Ingredient>, result: ItemStack) -> (r: Shapeless)
        ensures
            r@ == (ShapelessV { ingredients: ingredients_view(ingredients@), result: result@ }),
    {
        Shapeless { ingredients, result }
    }
}

/// The format version of every recipe document written.
pub open spec fn format_version() -> Seq<char> {
    "1.21.10"@
}

/// The unlock condition of every inverted recipe.
pub open spec fn always_unlocked() -> Seq<char> {
    "AlwaysUnlocked"@
}

/// The tag that marks every inverted recipe.
pub open spec fn decrafting_tag() -> Seq<char> {
    "mq_decrafting_table"@
}

/// A recipe under a new identifier, always unlocked and marked as an inverted recipe.
pub open spec fn output_component(id: Seq<char>, data: DataV, priority: Option<i8>) -> ComponentV {
    ComponentV {
        identifier: id,
        unlock: Some(always_unlocked()),
        tags: seq![decrafting_tag()],
        data,
        priority,
    }
}

pub open spec fn document_of(c: ComponentV) -> RecipeV {
    RecipeV { format_version: format_version(), component: Some(c) }
}

/// The recipe for a result that came from a tag: the result as its ingredients, and the
/// placeholder item of the first result stack, a single item with its data value, as its one result.
pub open spec fn placeholder_recipe(id: Seq<char>, result: StacksV, first: StackV) -> RecipeV {
    document_of(
        output_component(
            id,
            DataV::Shapeless(
                ShapelessV {
                    ingredients: stacks_as_ingredients(result),
                    result: placeholder_stack(first, placeholder_id(first.item)),
                },
            ),
            None,
        ),
    )
}

/// What an inversion hands back.
pub ghost struct InversionV {
    pub recipe: Option<RecipeV>,
    pub loot_table: Option<LootV>,
    pub placeholder: Option<Seq<char>>,
}

/// Nothing: the result stands for more items than a grid holds.
pub open spec fn no_output() -> InversionV {
    InversionV { recipe: None, loot_table: None, placeholder: None }
}

pub open spec fn has_tag_key(key: Seq<(char, KeyV)>) -> bool {
    exists|i: int| 0 <= i < key.len() && is_tag_key(#[trigger] key[i].1)
}

pub open spec fn has_tag_ingredient(ings: Seq<IngredientV>) -> bool {
    exists|i: int| 0 <= i < ings.len() && is_tag_ingredient(#[trigger] ings[i])
}

/// The inversion of a recipe under the new identifier `id`:
/// - a result of more than nine items gives nothing;
/// - a recipe with a tag gives the placeholder recipe, the loot table of its ingredients and
///   the placeholder item;
/// - any other recipe gives its inverse grid recipe, under `id`.
pub open spec fn invert(c: ComponentV, id: Seq<char>) -> Result<InversionV, ErrV> {
    match c.data {
        DataV::Shaped(s) => if total_count(s.result) > 9 {
            Ok(no_output())
        } else if has_tag_key(s.key) {
            match first_stack(s.result) {
                None => Err(ErrV::EmptyResult),
                Some(first) => match shaped_pools(s) {
                    Err(e) => Err(e),
                    Ok(pools) => Ok(
                        InversionV {
                            recipe: Some(placeholder_recipe(id, s.result, first)),
                            loot_table: Some(LootV { pools }),
                            placeholder: Some(placeholder_id(first.item)),
                        },
                    ),
                },
            }
        } else {
            match shaped_inverse(s) {
                Err(e) => Err(e),
                Ok(n) => Ok(
                    InversionV {
                        recipe: Some(document_of(output_component(id, DataV::Shaped(n), c.priority))),
                        loot_table: None,
                        placeholder: None,
                    },
                ),
            }
        },
        DataV::Shapeless(s) => if stack_count(s.result) > 9 {
            Ok(no_output())
        } else if has_tag_ingredient(s.ingredients) {
            match ingredient_pools(s.ingredients) {
                Err(e) => Err(e),
                Ok(pools) => Ok(
                    InversionV {
                        recipe: Some(placeholder_recipe(id, StacksV::Single(s.result), s.result)),
                        loot_table: Some(LootV { pools }),
                        placeholder: Some(placeholder_id(s.result.item)),
                    },
                ),
            }
        } else {
            match shapeless_inverse(s) {
                Err(e) => Err(e),
                Ok(n) => Ok(
                    InversionV {
                        recipe: Some(document_of(output_component(id, DataV::Shaped(n), c.priority))),
                        loot_table: None,
                        placeholder: None,
                    },
                ),
            }
        },
    }
}

/// What an inversion hands back: the new recipe document, the loot table and the
/// placeholder item when a tag was involved; all empty when the result is too large.
#[derive(Debug)]
pub struct Inversion {
    pub recipe: Option<Recipe>,
    pub loot_table: Option<LootTable>,
    pub placeholder: Option<String>,
}

impl View for Inversion {
    type V = InversionV;

    open spec fn view(&self) -> InversionV {
        InversionV {
            recipe: match self.recipe {
                Some(r) => Some(r@),
                None => None,
            },
            loot_table: match self.loot_table {
                Some(t) => Some(t@),
                None => None,
            },
            placeholder: match self.placeholder {
                Some(p) => Some(p@),
                None => None,
            },
        }
    }
}

impl Recipe {
    /// The document holding a recipe, in the current format version.
    pub fn from_component(value: RecipeComponent) -> (r: Recipe)
        ensures
            r@ == document_of(value@),
    {
        Recipe { format_version: "1.21.10".to_owned(), component: Some(value) }
    }
}

/// Whether any key of a grid is a tag.
fn any_tag_key(key: &Vec<(char, Key)>) -> (r: bool)
    ensures
        r == has_tag_key(keys_view(key@)),
{
    let mut k: usize = 0;
    while k < key.len()
        invariant
            k <= key@.len(),
            forall|j: int| 0 <= j < k ==> !is_tag_key(#[trigger] keys_view(key@)[j].1),
        decreases key@.len() - k,
    {
        if key[k].1.is_tag() {
            assert(is_tag_key(keys_view(key@)[k as int].1));
            return true;
        }
        k += 1;
    }
    false
}

/// Whether any ingredient is a tag.
fn any_tag_ingredient(ings: &Vec<Ingredient>) -> (r: bool)
    ensures
        r == has_tag_ingredient(ingredients_view(ings@)),
{
    let mut k: usize = 0;
    while k < ings.len()
        invariant
            k <= ings@.len(),
            forall|j: int| 0 <= j < k ==> !is_tag_ingredient(#[trigger] ingredients_view(ings@)[j]),
        decreases ings@.len() - k,
    {
        if ings[k].is_tag() {
            assert(is_tag_ingredient(ingredients_view(ings@)[k as int]));
            return true;
        }
        k += 1;
    }
    false
}

impl RecipeComponent {
    /// A recipe under `id`, always unlocked, marked as an inverted recipe, without priority.
    pub fn new(id: &str, data: Data) -> (r: RecipeComponent)
        ensures
            r@ == output_component(id@, data@, None),
    {
        let tags = vec!["mq_decrafting_table".to_owned()];
        let r = RecipeComponent {
            description: Description { identifier: id.to_owned() },
            unlock: Some(Unlock { context: "AlwaysUnlocked".to_owned() }),
            tags,
            data,
            priority: None,
        };
        assert(r@.tags =~= seq![decrafting_tag()]);
        r
    }

    /// Whether the recipe carries the "deprecated" tag.
    pub fn is_deprecated(&self) -> (r: bool)
        ensures
            r == exists|i: int| 0 <= i < self.tags@.len() && (#[trigger] self.tags@[i])@ == "deprecated"@,
    {
        let mut k: usize = 0;
        while k < self.tags.len()
            invariant
                k <= self.tags@.len(),
                forall|j: int| 0 <= j < k ==> (#[trigger] self.tags@[j])@ != "deprecated"@,
            decreases self.tags@.len() - k,
        {
            if str_eq(self.tags[k].as_str(), "deprecated") {
                return true;
            }
            k += 1;
        }
        false
    }

    /// Why the recipe is passed over before inversion, if it is: its identifier was seen
    /// before in the batch, or it is deprecated.
    pub fn skip_reason(&self, already_seen: bool) -> (r: Option<Skip>)
        ensures
            r == if already_seen {
                Some(Skip::Duplicate)
            } else if exists|i: int| 0 <= i < self.tags@.len() && (#[trigger] self.tags@[i])@ == "deprecated"@ {
                Some(Skip::Deprecated)
            } else {
                None::<Skip>
            },
    {
        if already_seen {
            Some(Skip::Duplicate)
        } else if self.is_deprecated() {
            Some(Skip::Deprecated)
        } else {
            None
        }
    }

    /// Inverts the recipe under the new identifier `result_recipe_id`: see `invert`.
    pub fn inverse(self, result_recipe_id: &str) -> (r: Result<Inversion, InvertError>)
        ensures
            r matches Ok(out) ==> invert(self@, result_recipe_id@) == Ok::<InversionV, ErrV>(out@),
            r matches Err(e) ==> invert(self@, result_recipe_id@) == Err::<InversionV, ErrV>(e@),
    {
        let ghost c = self@;
        let priority = self.priority;
        match self.data {
            Data::Shaped(shaped) => {
                if shaped.result.over_capacity() {
                    return Ok(Inversion { recipe: None, loot_table: None, placeholder: None });
                }
                if any_tag_key(&shaped.key) {
                    let first = match shaped.result.take_item_or_first() {
                        Some(f) => f.clone_stack(),
                        None => return Err(InvertError::EmptyResult),
                    };
                    let placeholder = mq_decrafting_item(first.item.as_str());
                    let recipe = Recipe::from_component(
                        RecipeComponent::new(
                            result_recipe_id,
                            Data::Shapeless(
                                Shapeless::return_item(
                                    shaped.result.to_ingredients(),
                                    first.crate_mq(placeholder.as_str()),
                                ),
                            ),
                        ),
                    );
                    let loot = LootTable::from_shaped(shaped)?;
                    Ok(Inversion { recipe: Some(recipe), loot_table: Some(loot), placeholder: Some(placeholder) })
                } else {
                    let inverted = shaped.inverse()?;
                    let component = RecipeComponent {
                        description: Description { identifier: result_recipe_id.to_owned() },
                        unlock: Some(Unlock { context: "AlwaysUnlocked".to_owned() }),
                        tags: vec!["mq_decrafting_table".to_owned()],
                        data: Data::Shaped(inverted),
                        priority,
                    };
                    assert(component@.tags =~= seq![decrafting_tag()]);
                    Ok(Inversion { recipe: Some(Recipe::from_component(component)), loot_table: None, placeholder: None })
                }
            },
            Data::Shapeless(shapeless) => {
                if shapeless.result.total() > 9 {
                    return Ok(Inversion { recipe: None, loot_table: None, placeholder: None });
                }
                if any_tag_ingredient(&shapeless.ingredients) {
                    let placeholder = mq_decrafting_item(shapeless.result.item.as_str());
                    let ings = vec![Ingredient::Item(shapeless.result.clone_stack())];
                    assert(ingredients_view(ings@) =~= stacks_as_ingredients(StacksV::Single(shapeless.result@)));
                    let recipe = Recipe::from_component(
                        RecipeComponent::new(
                            result_recipe_id,
                            Data::Shapeless(
                                Shapeless::return_item(ings, shapeless.result.crate_mq(placeholder.as_str())),
                            ),
                        ),
                    );
                    let loot = LootTable::from_vec_ingredient(shapeless.ingredients)?;
                    Ok(Inversion { recipe: Some(recipe), loot_table: Some(loot), placeholder: Some(placeholder) })
                } else {
                    let inverted = shapeless.inverse()?;
                    let component = RecipeComponent {
                        description: Description { identifier: result_recipe_id.to_owned() },
                        unlock: Some(Unlock { context: "AlwaysUnlocked".to_owned() }),
                        tags: vec!["mq_decrafting_table".to_owned()],
                        data: Data::Shaped(inverted),
                        priority,
                    };
                    assert(component@.tags =~= seq![decrafting_tag()]);
                    Ok(Inversion { recipe: Some(Recipe::from_component(component)), loot_table: None, placeholder: None })
                }
            },
        }
    }
}

/// The single buckets beyond the first of `count`.
fn bucket_extras(data: Option<u8>, count: u8) -> (r: Vec<ItemStack>)
    requires
        count >= 1,
    ensures
        stacks_view(r@) =~= Seq::new(
            (count - 1) as nat,
            |i: int| StackV { item: bucket_id(), data: data, count: None },
        ),
{
    let mut r: Vec<ItemStack> = Vec::new();
    let mut u: u8 = 1;
    while u < count
        invariant
            1 <= u <= count,
            r@.len() == u - 1,
            forall|j: int| 0 <= j < u - 1 ==> (#[trigger] r@[j])@ == (StackV { item: bucket_id(), data: data, count: None }),
        decreases count - u,
    {
        r.push(ItemStack { item: "minecraft:bucket".to_owned(), data, count: None });
        u += 1;
    }
    r
}

/// The symbol of the i-th stack of a result list.
fn symbol_at(i: usize) -> (r: char)
    requires
        i < 9,
    ensures
        r == grid_symbols()[i as int],
{
    match i {
        0 => 'A',
        1 => 'B',
        2 => 'C',
        3 => 'D',
        4 => 'E',
        5 => 'F',
        6 => 'G',
        7 => 'H',
        _ => 'I',
    }
}

/// An overflow within a prefix of a result list is the overflow of the whole list.
pub proof fn lemma_overflow_prefix(v: Seq<StackV>, k: int)
    requires
        0 <= k <= v.len(),
        overflow_item(v.take(k)) is Some,
    ensures
        overflow_item(v) == overflow_item(v.take(k)),
    decreases v.len() - k,
{
    if k < v.len() {
        assert(v.take(k + 1).drop_last() =~= v.take(k));
        lemma_overflow_prefix(v, k + 1);
    } else {
        assert(v.take(k) =~= v);
    }
}

} // verus!
