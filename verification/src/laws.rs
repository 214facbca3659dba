//! Laws relating the search variants: the partition-point contract admits a
//! single index, so every variant returns the same boundary, and repeating a
//! call reproduces its result.

use crate::contract::cmp_sorted;
use crate::contract::found_is_rightmost;
use crate::contract::is_partition_point;
use crate::contract::is_search_outcome;
use core::cmp::Ordering;
use vstd::prelude::*;

verus! {

/// Equivalence across variants: at most one index satisfies the
/// partition-point contract, so any two of the four adapters (each of which
/// ensures that contract for its result) return the same index for the same
/// sequence and predicate, and repeating one call reproduces its result.
pub proof fn lemma_partition_point_unique<T, P: Fn(&T) -> bool>(
    s: Seq<T>,
    pred: P,
    i: int,
    j: int,
)
    requires
        is_partition_point(s, pred, i),
        is_partition_point(s, pred, j),
    ensures
        i == j,
{
    if i < j {
        assert(call_ensures(pred, (&s[j - 1],), true));
    }
    if j < i {
        assert(call_ensures(pred, (&s[i - 1],), true));
    }
}

/// A rightmost-match search outcome is unique: any two outcomes that both
/// satisfy the common outcome contract together with the rightmost-match
/// guarantee are equal, so repeating such a search reproduces its result.
pub proof fn lemma_search_outcome_unique<T, F: Fn(&T) -> Ordering>(
    s: Seq<T>,
    f: F,
    r1: Result<usize, usize>,
    r2: Result<usize, usize>,
)
    requires
        is_search_outcome(s, f, r1),
        is_search_outcome(s, f, r2),
        found_is_rightmost(s, f, r1),
        found_is_rightmost(s, f, r2),
    ensures
        r1 == r2,
{
}

/// Without duplicate matches the rightmost-match guarantee is not needed:
/// when no two distinct elements can both compare `Equal`, any two outcomes
/// satisfying the common outcome contract are equal.
pub proof fn lemma_search_outcome_unique_without_duplicates<T, F: Fn(&T) -> Ordering>(
    s: Seq<T>,
    f: F,
    r1: Result<usize, usize>,
    r2: Result<usize, usize>,
)
    requires
        is_search_outcome(s, f, r1),
        is_search_outcome(s, f, r2),
        forall|i: int, j: int|
            0 <= i < j < s.len() && #[trigger] call_ensures(f, (&s[i],), Ordering::Equal)
                && #[trigger] call_ensures(f, (&s[j],), Ordering::Equal) ==> false,
    ensures
        r1 == r2,
{
}

/// Duplicate handling: under a sorted comparator the matching elements form
/// one contiguous run, so a found index (whose element is witnessed to
/// compare `Equal`) always lies inside that run, wherever between two other
/// matches it falls.
pub proof fn lemma_equal_run_contiguous<T, F: Fn(&T) -> Ordering>(
    s: Seq<T>,
    f: F,
    i: int,
    j: int,
    k: int,
)
    requires
        cmp_sorted(s, f),
        0 <= i <= j <= k < s.len(),
        call_ensures(f, (&s[i],), Ordering::Equal),
        call_ensures(f, (&s[k],), Ordering::Equal),
    ensures
        forall|c: Ordering| #[trigger] call_ensures(f, (&s[j],), c) ==> c == Ordering::Equal,
{
}

/// Boundary behavior on an empty sequence: the only index satisfying the
/// partition-point contract is zero, for every variant.
pub proof fn lemma_empty_partition_point<T, P: Fn(&T) -> bool>(s: Seq<T>, pred: P, i: int)
    requires
        s.len() == 0,
        is_partition_point(s, pred, i),
    ensures
        i == 0,
{
}

/// Boundary behavior on an empty sequence: a comparator search can only
/// report "not found at insertion point zero".
pub proof fn lemma_empty_search_outcome<T, F: Fn(&T) -> Ordering>(
    s: Seq<T>,
    f: F,
    r: Result<usize, usize>,
)
    requires
        s.len() == 0,
        is_search_outcome(s, f, r),
    ensures
        r == Err::<usize, usize>(0usize),
{
}

} // verus!
