//! The first index in `0..n` at which a predicate holds, with the lemmas
//! that tie a left-to-right search loop to it.
use vstd::prelude::*;

verus! {

/// The first `j` with `i <= j < n` and `p(j)`, if any.
pub open spec fn first_from(n: int, p: spec_fn(int) -> bool, i: int) -> Option<int>
    decreases n - i,
{
    if i >= n {
        None
    } else if p(i) {
        Some(i)
    } else {
        first_from(n, p, i + 1)
    }
}

/// The first `j` in `0..n` with `p(j)`, if any.
pub open spec fn first_index(n: int, p: spec_fn(int) -> bool) -> Option<int> {
    first_from(n, p, 0)
}

/// What `first_from` returns: the least index in range where `p` holds.
pub proof fn lemma_first_from(n: int, p: spec_fn(int) -> bool, i: int)
    requires
        0 <= i,
    ensures
        first_from(n, p, i) matches Some(j) ==> i <= j < n && p(j) && forall|k: int|
            i <= k < j ==> !#[trigger] p(k),
        first_from(n, p, i) is None ==> forall|k: int| i <= k < n ==> !#[trigger] p(k),
    decreases n - i,
{
    if i < n && !p(i) {
        lemma_first_from(n, p, i + 1);
    }
}

/// `first_index` is `j` when `p(j)` holds and `p` fails below `j`.
pub proof fn lemma_first_index_is(n: int, p: spec_fn(int) -> bool, j: int)
    requires
        0 <= j < n,
        p(j),
        forall|k: int| 0 <= k < j ==> !#[trigger] p(k),
    ensures
        first_index(n, p) == Some(j),
{
    lemma_first_from(n, p, 0);
}

/// `first_index` is `None` when `p` fails everywhere in `0..n`.
pub proof fn lemma_first_index_none(n: int, p: spec_fn(int) -> bool)
    requires
        forall|k: int| 0 <= k < n ==> !#[trigger] p(k),
    ensures
        first_index(n, p) is None,
{
    lemma_first_from(n, p, 0);
}

/// What `first_index` returns.
pub proof fn lemma_first_index(n: int, p: spec_fn(int) -> bool)
    ensures
        first_index(n, p) matches Some(j) ==> 0 <= j < n && p(j) && forall|k: int|
            0 <= k < j ==> !#[trigger] p(k),
        first_index(n, p) is None ==> forall|k: int| 0 <= k < n ==> !#[trigger] p(k),
{
    lemma_first_from(n, p, 0);
}

} // verus!
