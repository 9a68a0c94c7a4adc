//! The grid pattern engine: lays marks out on a three-by-three grid and counts them back.
use vstd::prelude::*;
use crate::text::strings_view;

verus! {

/// Number of rows, and of cells in a row, of a crafting grid.
pub const GRID_SIDE: usize = 3;

/// Number of cells of a crafting grid.
pub const GRID_CELLS: usize = 9;

/// How often `c` occurs in `s`.
pub open spec fn count_char(s: Seq<char>, c: char) -> nat
    decreases s.len(),
{
    if s.len() == 0 {
        0
    } else {
        count_char(s.drop_last(), c) + if s.last() == c { 1nat } else { 0nat }
    }
}

/// How often `c` occurs over all rows of a pattern.
pub open spec fn count_symbol(pattern: Seq<Seq<char>>, c: char) -> nat
    decreases pattern.len(),
{
    if pattern.len() == 0 {
        0
    } else {
        count_symbol(pattern.drop_last(), c) + count_char(pattern.last(), c)
    }
}

/// At most three rows, each of at most three symbols.
pub open spec fn pattern_fits(pattern: Seq<Seq<char>>) -> bool {
    &&& pattern.len() <= 3
    &&& forall|i: int| 0 <= i < pattern.len() ==> #[trigger] pattern[i].len() <= 3
}

pub open spec fn min(a: int, b: int) -> int {
    if a <= b { a } else { b }
}

/// The grid holding `marks` cell by cell: the first three in the top row, the next three in
/// the middle row, the rest in the bottom row, left to right.
pub open spec fn grid_of(marks: Seq<char>) -> Seq<Seq<char>> {
    let n = marks.len() as int;
    seq![
        marks.subrange(0, min(n, 3)),
        marks.subrange(min(n, 3), min(n, 6)),
        marks.subrange(min(n, 6), n),
    ]
}

/// `n` copies of `c`.
pub open spec fn repeat(c: char, n: nat) -> Seq<char> {
    Seq::new(n, |i: int| c)
}

/// Relies on String::push: appends one character.
#[verifier::external_body]
pub(crate) fn push_char(s: &mut String, c: char)
    ensures
        final(s)@ == old(s)@.push(c),
{
    s.push(c)
}

/// The count of `c` in one row.
pub fn count_in_row(row: &str, c: char) -> (r: usize)
    ensures
        r as nat == count_char(row@, c),
        r <= row@.len(),
{
    let n = row.unicode_len();
    let mut k: usize = 0;
    let mut cnt: usize = 0;
    while k < n
        invariant
            n == row@.len(),
            k <= n,
            cnt <= k,
            cnt as nat == count_char(row@.take(k as int), c),
        decreases n - k,
    {
        assert(row@.take(k + 1).drop_last() =~= row@.take(k as int));
        if row.get_char(k) == c {
            cnt += 1;
        }
        k += 1;
    }
    assert(row@.take(n as int) =~= row@);
    cnt
}

/// Whether a pattern fits a grid.
pub fn pattern_is_well_formed(pattern: &Vec<String>) -> (r: bool)
    ensures
        r == pattern_fits(strings_view(pattern@)),
{
    if pattern.len() > GRID_SIDE {
        return false;
    }
    let mut k: usize = 0;
    while k < pattern.len()
        invariant
            k <= pattern@.len(),
            forall|i: int| 0 <= i < k ==> #[trigger] pattern@[i]@.len() <= 3,
        decreases pattern@.len() - k,
    {
        if pattern[k].as_str().unicode_len() > GRID_SIDE {
            assert(strings_view(pattern@)[k as int].len() > 3);
            return false;
        }
        k += 1;
    }
    true
}

/// How often `c` occurs over the whole pattern.
pub fn count_symbol_in(pattern: &Vec<String>, c: char) -> (r: u8)
    requires
        pattern_fits(strings_view(pattern@)),
    ensures
        r as nat == count_symbol(strings_view(pattern@), c),
        r <= 9,
{
    let mut k: usize = 0;
    let mut cnt: u8 = 0;
    while k < pattern.len()
        invariant
            pattern_fits(strings_view(pattern@)),
            k <= pattern@.len(),
            cnt as nat == count_symbol(strings_view(pattern@).take(k as int), c),
            cnt <= 3 * k,
        decreases pattern@.len() - k,
    {
        assert(strings_view(pattern@).take(k + 1).drop_last() =~= strings_view(pattern@).take(k as int));
        assert(strings_view(pattern@)[k as int].len() <= 3);
        let m = count_in_row(pattern[k].as_str(), c);
        cnt = cnt + m as u8;
        k += 1;
    }
    assert(strings_view(pattern@).take(pattern@.len() as int) =~= strings_view(pattern@));
    cnt
}

/// Lays `marks` out on a grid, cell by cell: see `grid_of`.
pub fn layout(marks: &Vec<char>) -> (r: Vec<String>)
    requires
        marks@.len() <= 9,
    ensures
        strings_view(r@) == grid_of(marks@),
        pattern_fits(strings_view(r@)),
        r@.len() == 3,
{
    let n = marks.len();
    let mut top = String::new();
    let mut middle = String::new();
    let mut bottom = String::new();
    let mut k: usize = 0;
    while k < n
        invariant
            n == marks@.len(),
            n <= 9,
            k <= n,
            top@ =~= marks@.subrange(0, min(k as int, 3)),
            middle@ =~= marks@.subrange(min(k as int, 3), min(k as int, 6)),
            bottom@ =~= marks@.subrange(min(k as int, 6), k as int),
        decreases n - k,
    {
        if k < GRID_SIDE {
            push_char(&mut top, marks[k]);
        } else if k < 2 * GRID_SIDE {
            push_char(&mut middle, marks[k]);
        } else {
            push_char(&mut bottom, marks[k]);
        }
        k += 1;
    }
    let r = vec![top, middle, bottom];
    assert(strings_view(r@) =~= grid_of(marks@));
    r
}

} // verus!
