//! Item references: single items, stacks, tags and the unions built from them.
use vstd::prelude::*;

verus! {

/// An item identifier with an optional data value, as it stands in a key.
#[derive(Debug)]
pub struct ItemPair {
    pub item: String,
    pub data: Option<u8>,
}

/// An item identifier with optional data value and count (an absent count means one).
#[derive(Debug)]
pub struct ItemStack {
    pub item: String,
    pub data: Option<u8>,
    pub count: Option<u8>,
}

/// A symbolic category of items.
#[derive(Debug)]
pub struct ItemTag {
    pub tag: String,
}

/// What a grid symbol stands for.
#[derive(Debug)]
pub enum Key {
    Item(ItemPair),
    Tag(ItemTag),
}

/// One entry of a shapeless ingredient list.
#[derive(Debug)]
pub enum Ingredient {
    Item(ItemStack),
    Tag(ItemTag),
}

/// The result of a shaped recipe: one stack, or several distinct ones.
#[derive(Debug)]
pub enum ItemStacks {
    Single(ItemStack),
    Multiple(Vec<ItemStack>),
}

pub ghost struct PairV {
    pub item: Seq<char>,
    pub data: Option<u8>,
}

pub ghost struct StackV {
    pub item: Seq<char>,
    pub data: Option<u8>,
    pub count: Option<u8>,
}

pub ghost enum KeyV {
    Item(PairV),
    Tag(Seq<char>),
}

pub ghost enum IngredientV {
    Item(StackV),
    Tag(Seq<char>),
}

pub ghost enum StacksV {
    Single(StackV),
    Multiple(Seq<StackV>),
}

impl View for ItemPair {
    type V = PairV;

    open spec fn view(&self) -> PairV {
        PairV { item: self.item@, data: self.data }
    }
}

impl View for ItemStack {
    type V = StackV;

    open spec fn view(&self) -> StackV {
        StackV { item: self.item@, data: self.data, count: self.count }
    }
}

impl View for ItemTag {
    type V = Seq<char>;

    open spec fn view(&self) -> Seq<char> {
        self.tag@
    }
}

impl View for Key {
    type V = KeyV;

    open spec fn view(&self) -> KeyV {
        match self {
            Key::Item(p) => KeyV::Item(p@),
            Key::Tag(t) => KeyV::Tag(t@),
        }
    }
}

impl View for Ingredient {
    type V = IngredientV;

    open spec fn view(&self) -> IngredientV {
        match self {
            Ingredient::Item(s) => IngredientV::Item(s@),
            Ingredient::Tag(t) => IngredientV::Tag(t@),
        }
    }
}

impl View for ItemStacks {
    type V = StacksV;

    open spec fn view(&self) -> StacksV {
        match self {
            ItemStacks::Single(s) => StacksV::Single(s@),
            ItemStacks::Multiple(v) => StacksV::Multiple(stacks_view(v@)),
        }
    }
}

pub open spec fn stacks_view(v: Seq<ItemStack>) -> Seq<StackV> {
    v.map_values(|s: ItemStack| s@)
}

pub open spec fn ingredients_view(v: Seq<Ingredient>) -> Seq<IngredientV> {
    v.map_values(|i: Ingredient| i@)
}

/// The number of items a stack stands for: its count, or one when absent.
pub open spec fn stack_count(s: StackV) -> nat {
    match s.count {
        Some(c) => c as nat,
        None => 1,
    }
}

pub open spec fn pair_of(s: StackV) -> PairV {
    PairV { item: s.item, data: s.data }
}

/// The placeholder standing for a stack: the given identifier, the stack's data value, and
/// no count (a single item).
pub open spec fn placeholder_stack(s: StackV, id: Seq<char>) -> StackV {
    StackV { item: id, data: s.data, count: None }
}

pub open spec fn is_tag_key(k: KeyV) -> bool {
    k is Tag
}

pub open spec fn is_tag_ingredient(i: IngredientV) -> bool {
    i is Tag
}

impl ItemStack {
    /// The placeholder item `id` standing for this stack: same data value, a single item.
    pub fn crate_mq(&self, id: &str) -> (r: ItemStack)
        ensures
            r@ == placeholder_stack(self@, id@),
    {
        ItemStack { item: id.to_owned(), data: self.data, count: None }
    }

    /// A stack of one item with neither data nor count.
    pub fn from_id(id: &str) -> (r: ItemStack)
        ensures
            r@ == (StackV { item: id@, data: None, count: None }),
    {
        ItemStack { item: id.to_owned(), data: None, count: None }
    }

    pub fn clone_stack(&self) -> (r: ItemStack)
        ensures
            r@ == self@,
    {
        ItemStack { item: self.item.clone(), data: self.data, count: self.count }
    }

    /// The identifier and data value of the stack, without its count.
    pub fn to_pair(&self) -> (r: ItemPair)
        ensures
            r@ == pair_of(self@),
    {
        ItemPair { item: self.item.clone(), data: self.data }
    }

    /// The number of items the stack stands for.
    pub fn total(&self) -> (r: u8)
        ensures
            r as nat == stack_count(self@),
    {
        match self.count {
            Some(c) => c,
            None => 1,
        }
    }
}

impl Key {
    pub fn is_tag(&self) -> (r: bool)
        ensures
            r == is_tag_key(self@),
    {
        match self {
            Key::Tag(_) => true,
            Key::Item(_) => false,
        }
    }

}

impl Ingredient {
    pub fn is_tag(&self) -> (r: bool)
        ensures
            r == is_tag_ingredient(self@),
    {
        match self {
            Ingredient::Tag(_) => true,
            Ingredient::Item(_) => false,
        }
    }

}

/// The stacks of a result, each as an item ingredient, in order.
pub open spec fn stacks_as_ingredients(r: StacksV) -> Seq<IngredientV> {
    match r {
        StacksV::Single(s) => seq![IngredientV::Item(s)],
        StacksV::Multiple(v) => items_as_ingredients(v),
    }
}

pub open spec fn items_as_ingredients(v: Seq<StackV>) -> Seq<IngredientV> {
    v.map_values(|s: StackV| IngredientV::Item(s))
}

impl ItemStacks {
    /// The only stack, or the first of several.
    pub fn take_item_or_first(&self) -> (r: Option<&ItemStack>)
        ensures
            r is Some <==> first_stack(self@) is Some,
            r is Some ==> first_stack(self@) == Some(r->0@),
    {
        match self {
            ItemStacks::Single(i) => Some(i),
            ItemStacks::Multiple(is) => {
                if is.len() == 0 {
                    None
                } else {
                    Some(&is[0])
                }
            },
        }
    }

    /// Every stack of the result as an item ingredient.
    pub fn to_ingredients(&self) -> (r: Vec<Ingredient>)
        ensures
            ingredients_view(r@) == stacks_as_ingredients(self@),
    {
        match self {
            ItemStacks::Single(i) => {
                let r = vec![Ingredient::Item(i.clone_stack())];
                assert(ingredients_view(r@) =~= stacks_as_ingredients(self@));
                r
            },
            ItemStacks::Multiple(is) => {
                let mut r: Vec<Ingredient> = Vec::new();
                let mut k: usize = 0;
                while k < is.len()
                    invariant
                        k <= is@.len(),
                        r@.len() == k,
                        forall|j: int| 0 <= j < k ==> #[trigger] r@[j]@ == IngredientV::Item(is@[j]@),
                    decreases is@.len() - k,
                {
                    r.push(Ingredient::Item(is[k].clone_stack()));
                    k += 1;
                }
                assert(ingredients_view(r@) =~= stacks_as_ingredients(self@));
                r
            },
        }
    }

    /// Whether the result stands for more items than a grid holds.
    pub fn over_capacity(&self) -> (r: bool)
        ensures
            r == (total_count(self@) > 9),
    {
        match self {
            ItemStacks::Single(i) => i.total() > 9,
            ItemStacks::Multiple(is) => {
                let mut sum: u64 = 0;
                let mut k: usize = 0;
                while k < is.len()
                    invariant
                        k <= is@.len(),
                        sum as nat == sum_counts(stacks_view(is@).take(k as int)),
                        sum <= 9,
                        self@ == StacksV::Multiple(stacks_view(is@)),
                    decreases is@.len() - k,
                {
                    assert(stacks_view(is@).take(k + 1).drop_last() =~= stacks_view(is@).take(k as int));
                    sum = sum + is[k].total() as u64;
                    k += 1;
                    assert(sum as nat == sum_counts(stacks_view(is@).take(k as int)));
                    if sum > 9 {
                        proof {
                            lemma_sum_counts_prefix(stacks_view(is@), k as int);
                            assert(total_count(self@) == sum_counts(stacks_view(is@)));
                        }
                        return true;
                    }
                }
                assert(stacks_view(is@).take(is@.len() as int) =~= stacks_view(is@));
                false
            },
        }
    }
}

/// A prefix of stacks never counts more than the whole sequence.
pub proof fn lemma_sum_counts_prefix(v: Seq<StackV>, k: int)
    requires
        0 <= k <= v.len(),
    ensures
        sum_counts(v.take(k)) <= sum_counts(v),
    decreases v.len() - k,
{
    if k < v.len() {
        assert(v.take(k + 1).drop_last() =~= v.take(k));
        lemma_sum_counts_prefix(v, k + 1);
    } else {
        assert(v.take(k) =~= v);
    }
}

pub open spec fn first_stack(r: StacksV) -> Option<StackV> {
    match r {
        StacksV::Single(s) => Some(s),
        StacksV::Multiple(v) => if v.len() > 0 { Some(v[0]) } else { None },
    }
}

pub open spec fn sum_counts(v: Seq<StackV>) -> nat
    decreases v.len(),
{
    if v.len() == 0 {
        0
    } else {
        sum_counts(v.drop_last()) + stack_count(v.last())
    }
}

/// The number of items a result stands for, over all its stacks.
pub open spec fn total_count(r: StacksV) -> nat {
    match r {
        StacksV::Single(s) => stack_count(s),
        StacksV::Multiple(v) => sum_counts(v),
    }
}

} // verus!
