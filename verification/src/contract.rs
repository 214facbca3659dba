//! The specifications the search variants are verified against.
//!
//! A comparator or predicate arrives as an opaque closure, so the contracts
//! speak about its possible input/output pairs through `call_ensures`.
//! Sortedness of the input is therefore phrased as monotonicity of those
//! possible outcomes, and the result contracts combine universal clauses
//! ("every possible outcome on this side of the boundary is such-and-such")
//! with witness clauses ("this outcome was actually observed at the
//! boundary"), which together pin the returned index.

use core::cmp::Ordering;
use vstd::prelude::*;

verus! {

/// Comparator outcomes ordered `Less <= Equal <= Greater`.
pub open spec fn ord_le(a: Ordering, b: Ordering) -> bool {
    match a {
        Ordering::Less => true,
        Ordering::Equal => b == Ordering::Equal || b == Ordering::Greater,
        Ordering::Greater => b == Ordering::Greater,
    }
}

/// The comparator may be called on every element of the sequence.
pub open spec fn cmp_callable<T, F: Fn(&T) -> Ordering>(s: Seq<T>, f: F) -> bool {
    forall|i: int| 0 <= i < s.len() ==> call_requires(f, (&s[i],))
}

/// The sequence is sorted with respect to the comparator: along the sequence,
/// every possible comparator outcome moves from `Less` through `Equal` to
/// `Greater` and never back.  Instantiated at `i == j`, this also makes the
/// comparator's possible outcomes on one element mutually equal.
pub open spec fn cmp_sorted<T, F: Fn(&T) -> Ordering>(s: Seq<T>, f: F) -> bool {
    forall|i: int, j: int, ci: Ordering, cj: Ordering|
        0 <= i <= j < s.len() && #[trigger] call_ensures(f, (&s[i],), ci) && #[trigger] call_ensures(
            f,
            (&s[j],),
            cj,
        ) ==> ord_le(ci, cj)
}

/// What a comparator-driven search returns.
///
/// `Ok(i)` ("found"): comparing element `i` yields `Equal`, witnessed by an
/// actual comparator call.  `Err(i)` ("not found"): every element before `i`
/// compares `Less` and every element from `i` on compares `Greater`, so `i`
/// is the unique insertion point and no element matches; the comparator was
/// observed returning `Less` just below the boundary and `Greater` at it,
/// whenever such elements exist.
pub open spec fn is_search_outcome<T, F: Fn(&T) -> Ordering>(
    s: Seq<T>,
    f: F,
    r: Result<usize, usize>,
) -> bool {
    match r {
        Ok(i) => {
            &&& i < s.len()
            &&& call_ensures(f, (&s[i as int],), Ordering::Equal)
            &&& forall|c: Ordering| #[trigger]
                call_ensures(f, (&s[i as int],), c) ==> c == Ordering::Equal
        },
        Err(i) => {
            &&& i <= s.len()
            &&& forall|j: int, c: Ordering|
                0 <= j < i && #[trigger] call_ensures(f, (&s[j],), c) ==> c == Ordering::Less
            &&& forall|j: int, c: Ordering|
                i <= j < s.len() && #[trigger] call_ensures(f, (&s[j],), c) ==> c
                    == Ordering::Greater
            &&& i > 0 ==> call_ensures(f, (&s[i - 1],), Ordering::Less)
            &&& i < s.len() ==> call_ensures(f, (&s[i as int],), Ordering::Greater)
        },
    }
}

/// A found index is the last possible match: every element after it compares
/// `Greater`.
pub open spec fn found_is_rightmost<T, F: Fn(&T) -> Ordering>(
    s: Seq<T>,
    f: F,
    r: Result<usize, usize>,
) -> bool {
    match r {
        Ok(i) => forall|j: int, c: Ordering|
            i < j < s.len() && #[trigger] call_ensures(f, (&s[j],), c) ==> c == Ordering::Greater,
        Err(_) => true,
    }
}

/// The predicate may be called on every element of the sequence.
pub open spec fn pred_callable<T, P: Fn(&T) -> bool>(s: Seq<T>, pred: P) -> bool {
    forall|i: int| 0 <= i < s.len() ==> call_requires(pred, (&s[i],))
}

/// The predicate is monotonic over the sequence: it holds on a prefix and
/// fails on the remainder, so a possible `true` outcome later forces `true`
/// earlier.  Instantiated at `i == j`, this also makes the predicate's
/// possible outcomes on one element mutually equal.
pub open spec fn pred_monotone<T, P: Fn(&T) -> bool>(s: Seq<T>, pred: P) -> bool {
    forall|i: int, j: int, bi: bool, bj: bool|
        0 <= i <= j < s.len() && #[trigger] call_ensures(pred, (&s[i],), bi) && #[trigger]
        call_ensures(pred, (&s[j],), bj) ==> (bj ==> bi)
}

/// `i` is the partition point: the predicate holds on every element before
/// `i` and fails from `i` on, witnessed by an actual `true` outcome just
/// below the boundary and an actual `false` outcome at it, whenever such
/// elements exist.  At most one index satisfies this.
pub open spec fn is_partition_point<T, P: Fn(&T) -> bool>(s: Seq<T>, pred: P, i: int) -> bool {
    &&& 0 <= i <= s.len()
    &&& forall|j: int, b: bool| 0 <= j < i && #[trigger] call_ensures(pred, (&s[j],), b) ==> b
    &&& forall|j: int, b: bool|
        i <= j < s.len() && #[trigger] call_ensures(pred, (&s[j],), b) ==> !b
    &&& i > 0 ==> call_ensures(pred, (&s[i - 1],), true)
    &&& i < s.len() ==> call_ensures(pred, (&s[i],), false)
}

} // verus!
