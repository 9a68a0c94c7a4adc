//! Identifier comparisons and namespace rewrites.
use vstd::prelude::*;

verus! {

/// The characters of each string, in order.
pub open spec fn strings_view(v: Seq<String>) -> Seq<Seq<char>> {
    v.map_values(|s: String| s@)
}

/// Whether two strings hold the same characters.
pub fn str_eq(a: &str, b: &str) -> (r: bool)
    ensures
        r == (a@ == b@),
{
    let n = a.unicode_len();
    if n != b.unicode_len() {
        return false;
    }
    let mut k: usize = 0;
    while k < n
        invariant
            n == a@.len(),
            n == b@.len(),
            k <= n,
            a@.take(k as int) =~= b@.take(k as int),
        decreases n - k,
    {
        if a.get_char(k) != b.get_char(k) {
            return false;
        }
        assert(a@.take(k + 1) =~= a@.take(k as int).push(a@[k as int]));
        assert(b@.take(k + 1) =~= b@.take(k as int).push(b@[k as int]));
        k += 1;
    }
    assert(a@ =~= a@.take(n as int));
    assert(b@ =~= b@.take(n as int));
    true
}

/// Whether `s` begins with `prefix`.
pub open spec fn has_prefix(s: Seq<char>, prefix: Seq<char>) -> bool {
    prefix.len() <= s.len() && s.take(prefix.len() as int) == prefix
}

/// Whether `s` begins with `prefix`.
pub fn starts_with(s: &str, prefix: &str) -> (r: bool)
    ensures
        r == has_prefix(s@, prefix@),
{
    let n = s.unicode_len();
    let m = prefix.unicode_len();
    if m > n {
        return false;
    }
    let head = s.substring_char(0, m);
    str_eq(head, prefix)
}

/// `s` with `prefix` taken off its front, where it begins so.
pub open spec fn without_prefix(s: Seq<char>, prefix: Seq<char>) -> Seq<char> {
    if has_prefix(s, prefix) {
        s.skip(prefix.len() as int)
    } else {
        s
    }
}

/// `s` with `prefix` taken off its front, where it begins so; else `s` itself.
pub fn strip_prefix(s: &str, prefix: &str) -> (r: String)
    ensures
        r@ == without_prefix(s@, prefix@),
{
    if starts_with(s, prefix) {
        let n = s.unicode_len();
        let m = prefix.unicode_len();
        s.substring_char(m, n).to_owned()
    } else {
        s.to_owned()
    }
}

/// The namespace of the game's own identifiers.
pub open spec fn game_namespace() -> Seq<char> {
    "minecraft:"@
}

/// The namespace of the placeholder items.
pub open spec fn item_namespace() -> Seq<char> {
    "mq_decrafting_item:"@
}

/// The namespace of the inverted recipes.
pub open spec fn recipe_namespace() -> Seq<char> {
    "mq_decrafting_table:"@
}

/// The placeholder item for a result: a game identifier moves to the placeholder
/// namespace; any other identifier is put under it whole.
pub open spec fn placeholder_id(id: Seq<char>) -> Seq<char> {
    item_namespace() + without_prefix(id, game_namespace())
}

/// The identifier of the inverted recipe: a game identifier moves to the recipe namespace;
/// any other identifier stays as it is.
pub open spec fn decrafting_id(id: Seq<char>) -> Seq<char> {
    if has_prefix(id, game_namespace()) {
        recipe_namespace() + id.skip(game_namespace().len() as int)
    } else {
        id
    }
}

/// The placeholder item identifier for a result item.
pub fn mq_decrafting_item(id: &str) -> (r: String)
    ensures
        r@ == placeholder_id(id@),
{
    let rest = strip_prefix(id, "minecraft:");
    "mq_decrafting_item:".to_owned().concat(rest.as_str())
}

/// The identifier of the recipe that inverts the recipe `id`.
pub fn decrafting_recipe_id(id: &str) -> (r: String)
    ensures
        r@ == decrafting_id(id@),
{
    if starts_with(id, "minecraft:") {
        let rest = strip_prefix(id, "minecraft:");
        "mq_decrafting_table:".to_owned().concat(rest.as_str())
    } else {
        id.to_owned()
    }
}

/// The name of a placeholder item within its namespace, as its files are named.
pub fn placeholder_name(placeholder: &str) -> (r: String)
    ensures
        r@ == without_prefix(placeholder@, item_namespace()),
{
    strip_prefix(placeholder, "mq_decrafting_item:")
}

} // verus!
