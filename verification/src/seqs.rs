//! Searching in sequences.
use vstd::prelude::*;

verus! {

/// The least index in `lo..n` at which `p` holds, or `n` where there is none.
pub open spec fn first_where(lo: int, n: int, p: spec_fn(int) -> bool) -> int
    decreases n - lo,
{
    if lo >= n {
        n
    } else if p(lo) {
        lo
    } else {
        first_where(lo + 1, n, p)
    }
}

/// `first_where` is the index `i` that satisfies `p` when none before it does, and the end of
/// the range when none does at all.
pub proof fn lemma_first_where_is(lo: int, n: int, p: spec_fn(int) -> bool, i: int)
    requires
        lo <= i <= n,
        forall|j: int| lo <= j < i ==> !#[trigger] p(j),
        i == n || p(i),
    ensures
        first_where(lo, n, p) == i,
    decreases n - lo,
{
    if lo < i {
        assert(!p(lo));
        lemma_first_where_is(lo + 1, n, p, i);
    }
}

/// What `first_where` returns is in range, satisfies `p` when it is not the end, and nothing
/// before it does.
pub proof fn lemma_first_where(lo: int, n: int, p: spec_fn(int) -> bool)
    requires
        lo <= n,
    ensures
        lo <= first_where(lo, n, p) <= n,
        first_where(lo, n, p) < n ==> p(first_where(lo, n, p)),
        forall|j: int| lo <= j < first_where(lo, n, p) ==> !#[trigger] p(j),
    decreases n - lo,
{
    if lo < n && !p(lo) {
        lemma_first_where(lo + 1, n, p);
        assert forall|j: int| lo <= j < first_where(lo, n, p) implies !#[trigger] p(j) by {
            if j > lo {
                assert(lo + 1 <= j < first_where(lo + 1, n, p));
            }
        }
    }
}

/// The greatest index in `lo..hi` at which `p` holds, or one less than `lo` where there is none.
pub open spec fn last_where(lo: int, hi: int, p: spec_fn(int) -> bool) -> int
    decreases hi - lo,
{
    if hi <= lo {
        lo - 1
    } else if p(hi - 1) {
        hi - 1
    } else {
        last_where(lo, hi - 1, p)
    }
}

/// `last_where` is the index `i` that satisfies `p` when none behind it does, and one less than
/// the start of the range when none does at all.
pub proof fn lemma_last_where_is(lo: int, hi: int, p: spec_fn(int) -> bool, i: int)
    requires
        lo <= hi,
        lo - 1 <= i < hi,
        forall|j: int| i < j < hi ==> !#[trigger] p(j),
        i == lo - 1 || p(i),
    ensures
        last_where(lo, hi, p) == i,
    decreases hi - lo,
{
    if i < hi - 1 {
        assert(!p(hi - 1));
        lemma_last_where_is(lo, hi - 1, p, i);
    }
}

/// What `last_where` returns is in range, satisfies `p` when it is not in front of the range, and
/// nothing behind it does.
pub proof fn lemma_last_where(lo: int, hi: int, p: spec_fn(int) -> bool)
    requires
        lo <= hi,
    ensures
        lo - 1 <= last_where(lo, hi, p) < hi || (lo == hi && last_where(lo, hi, p) == lo - 1),
        last_where(lo, hi, p) >= lo ==> p(last_where(lo, hi, p)),
        forall|j: int| last_where(lo, hi, p) < j < hi ==> !#[trigger] p(j),
    decreases hi - lo,
{
    if lo < hi && !p(hi - 1) {
        lemma_last_where(lo, hi - 1, p);
        assert forall|j: int| last_where(lo, hi, p) < j < hi implies !#[trigger] p(j) by {
            if j < hi - 1 {
                assert(last_where(lo, hi - 1, p) < j < hi - 1);
            }
        }
    }
}

} // verus!
