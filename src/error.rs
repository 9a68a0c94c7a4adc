//! Why a recipe could not be inverted.
use vstd::prelude::*;

verus! {

/// The failures of an inversion; each abandons the recipe at hand.
#[derive(Debug)]
pub enum InvertError {
    /// A tag that the expansion table does not list.
    UnknownTag { tag: String },
    /// A layout that needs more than the nine cells of a grid, for the named item.
    OverCapacity { item: String },
    /// A tag where only a concrete item can stand.
    TagInItemPosition { tag: String },
    /// A pattern of more than three rows, or a row of more than three symbols.
    MalformedPattern,
    /// A grid key that gives one symbol twice.
    RepeatedSymbol,
    /// A result list without any stack.
    EmptyResult,
}

pub ghost enum ErrV {
    UnknownTag(Seq<char>),
    OverCapacity(Seq<char>),
    TagInItemPosition(Seq<char>),
    MalformedPattern,
    RepeatedSymbol,
    EmptyResult,
}

impl View for InvertError {
    type V = ErrV;

    open spec fn view(&self) -> ErrV {
        match self {
            InvertError::UnknownTag { tag } => ErrV::UnknownTag(tag@),
            InvertError::OverCapacity { item } => ErrV::OverCapacity(item@),
            InvertError::TagInItemPosition { tag } => ErrV::TagInItemPosition(tag@),
            InvertError::MalformedPattern => ErrV::MalformedPattern,
            InvertError::RepeatedSymbol => ErrV::RepeatedSymbol,
            InvertError::EmptyResult => ErrV::EmptyResult,
        }
    }
}

/// Applies `f` to each element in order: the first failure, or every result.
pub open spec fn collect<A, B>(s: Seq<A>, f: spec_fn(A) -> Result<B, ErrV>) -> Result<Seq<B>, ErrV>
    decreases s.len(),
{
    if s.len() == 0 {
        Ok(Seq::empty())
    } else {
        match collect(s.drop_last(), f) {
            Err(e) => Err(e),
            Ok(done) => match f(s.last()) {
                Err(e) => Err(e),
                Ok(b) => Ok(done.push(b)),
            },
        }
    }
}

/// A failure on a prefix is the failure of the whole sequence.
pub proof fn lemma_collect_err_prefix<A, B>(s: Seq<A>, f: spec_fn(A) -> Result<B, ErrV>, k: int)
    requires
        0 <= k <= s.len(),
        collect(s.take(k), f) is Err,
    ensures
        collect(s, f) == collect(s.take(k), f),
    decreases s.len() - k,
{
    if k < s.len() {
        assert(s.take(k + 1).drop_last() =~= s.take(k));
        lemma_collect_err_prefix(s, f, k + 1);
    } else {
        assert(s.take(k) =~= s);
    }
}

/// `collect` succeeds exactly when `f` succeeds on every element, and then yields the
/// results element by element.
pub proof fn lemma_collect_ok<A, B>(s: Seq<A>, f: spec_fn(A) -> Result<B, ErrV>)
    ensures
        collect(s, f) is Ok <==> forall|i: int| 0 <= i < s.len() ==> #[trigger] f(s[i]) is Ok,
        collect(s, f) is Ok ==> collect(s, f)->Ok_0.len() == s.len() && forall|i: int|
            0 <= i < s.len() ==> f(s[i]) == Ok::<B, ErrV>(#[trigger] collect(s, f)->Ok_0[i]),
    decreases s.len(),
{
    if s.len() > 0 {
        lemma_collect_ok(s.drop_last(), f);
        assert forall|i: int| 0 <= i < s.len() - 1 implies s.drop_last()[i] == s[i] by {}
    }
}

/// When `collect` fails, its failure is that of the first element on which `f` fails.
pub proof fn lemma_collect_first_err<A, B>(s: Seq<A>, f: spec_fn(A) -> Result<B, ErrV>)
    requires
        collect(s, f) is Err,
    ensures
        exists|i: int|
            0 <= i < s.len() && #[trigger] f(s[i]) == Err::<B, ErrV>(collect(s, f)->Err_0) && forall|j: int|
                0 <= j < i ==> #[trigger] f(s[j]) is Ok,
    decreases s.len(),
{
    let t = s.drop_last();
    assert forall|i: int| 0 <= i < t.len() implies t[i] == s[i] by {}
    lemma_collect_ok(t, f);
    if collect(t, f) is Err {
        lemma_collect_first_err(t, f);
        let i = choose|i: int|
            0 <= i < t.len() && #[trigger] f(t[i]) == Err::<B, ErrV>(collect(t, f)->Err_0) && forall|j: int|
                0 <= j < i ==> #[trigger] f(t[j]) is Ok;
        assert(f(s[i]) == Err::<B, ErrV>(collect(s, f)->Err_0));
        assert forall|j: int| 0 <= j < i implies #[trigger] f(s[j]) is Ok by {
            assert(f(t[j]) is Ok);
        }
    } else {
        let i = s.len() - 1;
        assert(f(s[i]) == Err::<B, ErrV>(collect(s, f)->Err_0));
        assert forall|j: int| 0 <= j < i implies #[trigger] f(s[j]) is Ok by {
            assert(f(t[j]) is Ok);
        }
    }
}

} // verus!
