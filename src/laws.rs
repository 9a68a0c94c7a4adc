//! What holds of every inversion.
use vstd::prelude::*;
use crate::error::{collect, lemma_collect_first_err, lemma_collect_ok, ErrV};
use crate::item::{first_stack, stack_count, sum_counts, total_count, IngredientV, KeyV, StackV, StacksV};
use crate::loot_table::{ingredient_pool_fn, ingredient_pools, key_pool_fn, shaped_pools, tag_pool, PoolV};
use crate::pattern::{count_char, count_symbol, grid_of, pattern_fits};
use crate::recipe::{
    bucket_id, key_item_fn, keys_unique, overflow_item, result_layout, has_tag_ingredient, has_tag_key, invert, key_extra_stacks, key_extras, key_stack,
    key_stacks, no_output, result_marks, shaped_inverse, splits_buckets, DataV, ComponentV, InversionV, ShapedV,
};
use crate::tags::tag_members;

verus! {

/// The number of items the result of a recipe stands for.
pub open spec fn result_count(d: DataV) -> nat {
    match d {
        DataV::Shaped(s) => total_count(s.result),
        DataV::Shapeless(s) => stack_count(s.result),
    }
}

/// Whether a key of the grid is the tag `t`.
pub open spec fn key_names_tag(key: Seq<(char, KeyV)>, t: Seq<char>) -> bool {
    exists|i: int| 0 <= i < key.len() && (#[trigger] key[i]).1 == KeyV::Tag(t)
}

/// Whether an ingredient is the tag `t`.
pub open spec fn ingredients_name_tag(ings: Seq<IngredientV>, t: Seq<char>) -> bool {
    exists|i: int| 0 <= i < ings.len() && #[trigger] ings[i] == IngredientV::Tag(t)
}

/// Whether a key or an ingredient of the recipe is the tag `t`.
pub open spec fn names_tag(d: DataV, t: Seq<char>) -> bool {
    match d {
        DataV::Shaped(s) => key_names_tag(s.key, t),
        DataV::Shapeless(s) => ingredients_name_tag(s.ingredients, t),
    }
}

/// A recipe whose result stands for more than nine items inverts to nothing: no recipe, no
/// loot table.
pub proof fn law_oversized_result_gives_nothing(c: ComponentV, id: Seq<char>)
    requires
        result_count(c.data) > 9,
    ensures
        invert(c, id) == Ok::<InversionV, ErrV>(no_output()),
{
}

/// Inversion is a function of the recipe and the new identifier alone: equal inputs give
/// equal outputs.
pub proof fn law_inversion_is_deterministic(a: ComponentV, b: ComponentV, id_a: Seq<char>, id_b: Seq<char>)
    requires
        a == b,
        id_a == id_b,
    ensures
        invert(a, id_a) == invert(b, id_b),
{
}

/// The pool of a listed tag has one entry per member of the tag, in the table's order, each
/// of weight one.
pub proof fn law_tag_pool_covers_members(t: Seq<char>, count: u8)
    requires
        tag_members(t) is Some,
    ensures
        tag_pool(t, count) is Ok,
        tag_pool(t, count)->Ok_0.entries.len() == tag_members(t)->Some_0.len(),
        forall|i: int|
            0 <= i < tag_members(t)->Some_0.len() ==> (#[trigger] tag_pool(t, count)->Ok_0.entries[i]).weight == 1
                && tag_pool(t, count)->Ok_0.entries[i].name == tag_members(t)->Some_0[i],
{
}

/// The pools of a grid recipe that keys a tag the table does not list fail, naming such a
/// tag (the first one in key order), once the pattern fits the grid and no symbol is keyed
/// twice.
pub proof fn law_unknown_tag_fails_grid_pools(s: ShapedV, t: Seq<char>)
    requires
        key_names_tag(s.key, t),
        tag_members(t) is None,
        pattern_fits(s.pattern),
        keys_unique(s.key),
    ensures
        shaped_pools(s) matches Err(ErrV::UnknownTag(u)) && key_names_tag(s.key, u) && tag_members(u) is None,
{
    let i = choose|i: int| 0 <= i < s.key.len() && (#[trigger] s.key[i]).1 == KeyV::Tag(t);
    let f = key_pool_fn(s.pattern);
    assert(f(s.key[i]) is Err);
    lemma_collect_ok(s.key, f);
    lemma_collect_first_err(s.key, f);
    let j = choose|j: int|
        0 <= j < s.key.len() && #[trigger] f(s.key[j]) == Err::<PoolV, ErrV>(collect(s.key, f)->Err_0)
            && forall|k: int| 0 <= k < j ==> #[trigger] f(s.key[k]) is Ok;
    let u = s.key[j].1->Tag_0;
    assert(key_names_tag(s.key, u));
}

/// The pools of an ingredient list that holds a tag the table does not list fail, naming
/// such a tag (the first one in order).
pub proof fn law_unknown_tag_fails_ingredient_pools(ings: Seq<IngredientV>, t: Seq<char>)
    requires
        ingredients_name_tag(ings, t),
        tag_members(t) is None,
    ensures
        ingredient_pools(ings) matches Err(ErrV::UnknownTag(u)) && ingredients_name_tag(ings, u)
            && tag_members(u) is None,
{
    let i = choose|i: int| 0 <= i < ings.len() && #[trigger] ings[i] == IngredientV::Tag(t);
    let f = ingredient_pool_fn();
    assert(f(ings[i]) is Err);
    lemma_collect_ok(ings, f);
    lemma_collect_first_err(ings, f);
    let j = choose|j: int|
        0 <= j < ings.len() && #[trigger] f(ings[j]) == Err::<PoolV, ErrV>(collect(ings, f)->Err_0)
            && forall|k: int| 0 <= k < j ==> #[trigger] f(ings[k]) is Ok;
    let u = ings[j]->Tag_0;
    assert(ingredients_name_tag(ings, u));
}

/// A recipe that names a tag the table does not list fails to invert, naming such a tag
/// (the first one in order), unless its result is too large to invert at all; a grid recipe
/// must moreover have a pattern that fits the grid, no symbol keyed twice, and at least one
/// result stack.
pub proof fn law_unknown_tag_fails(c: ComponentV, id: Seq<char>, t: Seq<char>)
    requires
        names_tag(c.data, t),
        tag_members(t) is None,
        result_count(c.data) <= 9,
        c.data matches DataV::Shaped(s) ==> pattern_fits(s.pattern) && keys_unique(s.key) && first_stack(
            s.result,
        ) is Some,
    ensures
        invert(c, id) matches Err(ErrV::UnknownTag(u)) && names_tag(c.data, u) && tag_members(u) is None,
{
    match c.data {
        DataV::Shaped(s) => {
            let i = choose|i: int| 0 <= i < s.key.len() && (#[trigger] s.key[i]).1 == KeyV::Tag(t);
            assert(has_tag_key(s.key));
            law_unknown_tag_fails_grid_pools(s, t);
        },
        DataV::Shapeless(s) => {
            let i = choose|i: int| 0 <= i < s.ingredients.len() && #[trigger] s.ingredients[i] == IngredientV::Tag(t);
            assert(has_tag_ingredient(s.ingredients));
            law_unknown_tag_fails_ingredient_pools(s.ingredients, t);
        },
    }
}

/// No stack of a result list has a count of zero.
pub open spec fn counts_positive(r: StacksV) -> bool {
    match r {
        StacksV::Single(_) => true,
        StacksV::Multiple(v) => forall|i: int| 0 <= i < v.len() ==> (#[trigger] v[i]).count != Some(0u8),
    }
}

proof fn lemma_positive_counts_fit(v: Seq<StackV>)
    requires
        forall|i: int| 0 <= i < v.len() ==> (#[trigger] v[i]).count != Some(0u8),
    ensures
        v.len() <= sum_counts(v),
        result_marks(v).len() <= sum_counts(v),
        sum_counts(v) <= 9 ==> overflow_item(v) is None,
    decreases v.len(),
{
    if v.len() > 0 {
        let d = v.drop_last();
        assert forall|i: int| 0 <= i < d.len() implies (#[trigger] d[i]).count != Some(0u8) by {
            assert(d[i] == v[i]);
        }
        lemma_positive_counts_fit(d);
        assert(v.last() == v[v.len() - 1]);
    }
}

/// An inversion to a grid recipe without loot table, whose result list gives back `count`
/// items and whose grid has three rows of at most three marks each.
pub open spec fn gives_back_grid(out: InversionV, count: nat) -> bool {
    match out.recipe {
        Some(r) => match r.component {
            Some(k) => match k.data {
                DataV::Shaped(n) => match n.result {
                    StacksV::Multiple(v) => out.loot_table is None && sum_counts(v) == count
                        && n.pattern.len() == 3 && pattern_fits(n.pattern),
                    StacksV::Single(_) => false,
                },
                DataV::Shapeless(_) => false,
            },
            None => false,
        },
        None => false,
    }
}

/// An untagged grid recipe with one key, a pattern that fits the grid, and a result of at
/// most nine items without zero counts always inverts: to a grid recipe without loot table,
/// whose result gives back as many items as the key's symbol occurs in the old pattern, and
/// whose new grid has three rows of at most three marks each.
pub proof fn law_single_key_recipe_inverts(c: ComponentV, id: Seq<char>)
    requires
        c.data matches DataV::Shaped(s) && s.key.len() == 1 && s.key[0].1 is Item && pattern_fits(s.pattern)
            && total_count(s.result) <= 9 && counts_positive(s.result),
    ensures
        invert(c, id) is Ok,
        gives_back_grid(
            invert(c, id)->Ok_0,
            count_symbol(c.data->Shaped_0.pattern, c.data->Shaped_0.key[0].0),
        ),
{
    let s = c.data->Shaped_0;
    assert(!has_tag_key(s.key));
    assert(keys_unique(s.key));
    lemma_collect_ok(s.key, key_item_fn());
    match s.result {
        StacksV::Single(_) => {},
        StacksV::Multiple(v) => {
            lemma_positive_counts_fit(v);
        },
    }
    assert(result_layout(s.result) is Ok);
    assert(shaped_inverse(s) is Ok);
    law_single_key_inverse(s);
}

proof fn lemma_count_char_bound(s: Seq<char>, c: char)
    ensures
        count_char(s, c) <= s.len(),
    decreases s.len(),
{
    if s.len() > 0 {
        lemma_count_char_bound(s.drop_last(), c);
    }
}

proof fn lemma_count_symbol_bound(pattern: Seq<Seq<char>>, c: char)
    requires
        pattern_fits(pattern),
    ensures
        count_symbol(pattern, c) <= 3 * pattern.len(),
    decreases pattern.len(),
{
    if pattern.len() > 0 {
        let p = pattern.drop_last();
        assert forall|i: int| 0 <= i < p.len() implies #[trigger] p[i].len() <= 3 by {
            assert(pattern[i].len() <= 3);
        }
        lemma_count_symbol_bound(p, c);
        lemma_count_char_bound(pattern.last(), c);
        assert(pattern[pattern.len() - 1].len() <= 3);
    }
}

proof fn lemma_sum_counts_concat(a: Seq<StackV>, b: Seq<StackV>)
    ensures
        sum_counts(a + b) == sum_counts(a) + sum_counts(b),
    decreases b.len(),
{
    if b.len() == 0 {
        assert(a + b =~= a);
    } else {
        assert((a + b).drop_last() =~= a + b.drop_last());
        lemma_sum_counts_concat(a, b.drop_last());
    }
}

proof fn lemma_sum_counts_singles(n: nat, s: StackV)
    requires
        s.count is None,
    ensures
        sum_counts(Seq::new(n, |i: int| s)) == n,
    decreases n,
{
    if n > 0 {
        assert(Seq::new(n, |i: int| s).drop_last() =~= Seq::new((n - 1) as nat, |i: int| s));
        lemma_sum_counts_singles((n - 1) as nat, s);
    }
}

proof fn lemma_grid_fits(marks: Seq<char>)
    requires
        marks.len() <= 9,
    ensures
        pattern_fits(grid_of(marks)),
{
}

/// Inverting a grid recipe with one key, a concrete item, gives back as many items as the
/// key's symbol occurs in the pattern, and a new grid with at most three marks per row.
pub proof fn law_single_key_inverse(s: ShapedV)
    requires
        s.key.len() == 1,
        s.key[0].1 is Item,
        shaped_inverse(s) is Ok,
    ensures
        shaped_inverse(s)->Ok_0.result matches StacksV::Multiple(v) && sum_counts(v) == count_symbol(
            s.pattern,
            s.key[0].0,
        ),
        pattern_fits(shaped_inverse(s)->Ok_0.pattern),
{
    let e = s.key[0];
    let n = count_symbol(s.pattern, e.0);
    lemma_count_symbol_bound(s.pattern, e.0);
    assert(key_stacks(s.pattern, s.key) =~= seq![key_stack(s.pattern, e)]);
    let d = s.key.drop_last();
    assert(d.len() == 0);
    assert(key_extras(s.pattern, d) == Seq::<StackV>::empty());
    assert(s.key.last() == e);
    assert(key_extras(s.pattern, s.key) == key_extras(s.pattern, d) + key_extra_stacks(s.pattern, e));
    assert(key_extras(s.pattern, s.key) =~= key_extra_stacks(s.pattern, e));
    let q = seq![key_stack(s.pattern, e)];
    assert(q.drop_last().len() == 0);
    assert(sum_counts(q.drop_last()) == 0);
    assert(q.last() == key_stack(s.pattern, e));
    assert(sum_counts(q) == stack_count(key_stack(s.pattern, e)));
    lemma_sum_counts_concat(key_stacks(s.pattern, s.key), key_extras(s.pattern, s.key));
    if splits_buckets(s.pattern, e) {
        let b = StackV { item: bucket_id(), data: e.1->Item_0.data, count: None };
        lemma_sum_counts_singles((n - 1) as nat, b);
        assert(key_extra_stacks(s.pattern, e) =~= Seq::new((n - 1) as nat, |i: int| b));
    } else {
        assert(sum_counts(key_extra_stacks(s.pattern, e)) == 0);
    }
    match s.result {
        StacksV::Single(r) => {
            lemma_grid_fits(crate::pattern::repeat('#', stack_count(r)));
        },
        StacksV::Multiple(v) => {
            if v.len() > 0 {
                assert(result_marks(v).len() <= 9);
            }
            lemma_grid_fits(result_marks(v));
        },
    }
}

} // verus!
