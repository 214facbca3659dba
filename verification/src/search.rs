//! The four boundary-search variants and their partition-point adapters.

use crate::contract::cmp_callable;
use crate::contract::cmp_sorted;
use crate::contract::found_is_rightmost;
use crate::contract::is_partition_point;
use crate::contract::is_search_outcome;
use crate::contract::pred_callable;
use crate::contract::pred_monotone;
use core::cmp::Ordering;
use vstd::prelude::*;
use vstd::slice::slice_index_get;

verus! {

/// Head/tail shrink driven by a three-way comparator.  The remaining
/// candidate range `[base, base + rem)` is split at its midpoint; the first
/// element of the tail half is compared and either half is discarded (or the
/// match is returned) until the tail is empty.
pub fn logic1<T, F: Fn(&T) -> Ordering>(slice: &[T], f: F) -> (r: Result<usize, usize>)
    requires
        cmp_callable(slice@, f),
        cmp_sorted(slice@, f),
    ensures
        is_search_outcome(slice@, f, r),
{
    let mut base: usize = 0;
    let mut rem: usize = slice.len();

    loop
        invariant
            cmp_callable(slice@, f),
            cmp_sorted(slice@, f),
            slice@.len() <= usize::MAX,
            base + rem <= slice@.len(),
            forall|j: int, c: Ordering|
                0 <= j < base && #[trigger] call_ensures(f, (&slice@[j],), c) ==> c
                    == Ordering::Less,
            forall|j: int, c: Ordering|
                base + rem <= j < slice@.len() && #[trigger] call_ensures(f, (&slice@[j],), c)
                    ==> c == Ordering::Greater,
            base > 0 ==> call_ensures(f, (&slice@[base - 1],), Ordering::Less),
            base + rem < slice@.len() ==> call_ensures(
                f,
                (&slice@[base + rem],),
                Ordering::Greater,
            ),
        decreases rem,
    {
        let head_len = rem / 2;
        let tail_len = rem - head_len;
        if tail_len == 0 {
            return Err(base);
        }
        let m = base + head_len;
        match f(slice_index_get(slice, m)) {
            Ordering::Less => {
                base = m + 1;
                rem = tail_len - 1;
            },
            Ordering::Greater => {
                rem = head_len;
            },
            Ordering::Equal => {
                return Ok(m);
            },
        }
    }
}

/// Iterative shrink-by-half driven by a three-way comparator: the standard
/// binary-search shape.  `base` marks the start of the remaining range of
/// length `size`; while more than one candidate is left, the range keeps its
/// half containing the boundary, and one final comparison at `base` decides
/// the outcome.  An empty slice returns without any comparator call.
///
/// On top of the common outcome contract, this variant finds the rightmost
/// match: `base` advances over every element that does not compare
/// `Greater`, so everything after a found index compares `Greater`.
pub fn logic2<T, F: Fn(&T) -> Ordering>(slice: &[T], f: F) -> (r: Result<usize, usize>)
    requires
        cmp_callable(slice@, f),
        cmp_sorted(slice@, f),
    ensures
        is_search_outcome(slice@, f, r),
        found_is_rightmost(slice@, f, r),
{
    let mut size = slice.len();
    if size == 0 {
        return Err(0);
    }
    let mut base: usize = 0;
    while size > 1
        invariant
            cmp_callable(slice@, f),
            cmp_sorted(slice@, f),
            slice@.len() <= usize::MAX,
            1 <= size,
            base + size <= slice@.len(),
            forall|j: int, c: Ordering|
                base + size <= j < slice@.len() && #[trigger] call_ensures(f, (&slice@[j],), c)
                    ==> c == Ordering::Greater,
            base > 0 ==> call_ensures(f, (&slice@[base as int],), Ordering::Less) || call_ensures(
                f,
                (&slice@[base as int],),
                Ordering::Equal,
            ),
            base + size == slice@.len() || call_ensures(
                f,
                (&slice@[base + size],),
                Ordering::Greater,
            ) || (size >= 2 && call_ensures(f, (&slice@[base + size - 1],), Ordering::Greater)),
        decreases size,
    {
        let half = size / 2;
        let mid = base + half;
        let cmp = f(slice_index_get(slice, mid));
        base = match cmp {
            Ordering::Greater => base,
            _ => mid,
        };
        size -= half;
    }
    match f(slice_index_get(slice, base)) {
        Ordering::Equal => Ok(base),
        Ordering::Less => Err(base + 1),
        Ordering::Greater => Err(base),
    }
}

/// Two-pointer predicate search: the classic closed form of the partition
/// point.  Keeps `left` and `right` cursors and halves the open range until
/// they meet on the first index whose element fails the predicate.
pub fn logic3<T, P: Fn(&T) -> bool>(slice: &[T], pred: P) -> (r: usize)
    requires
        pred_callable(slice@, pred),
        pred_monotone(slice@, pred),
    ensures
        is_partition_point(slice@, pred, r as int),
{
    let mut left: usize = 0;
    let mut right: usize = slice.len();

    while left != right
        invariant
            pred_callable(slice@, pred),
            pred_monotone(slice@, pred),
            left <= right <= slice@.len(),
            forall|j: int, b: bool|
                0 <= j < left && #[trigger] call_ensures(pred, (&slice@[j],), b) ==> b,
            forall|j: int, b: bool|
                right <= j < slice@.len() && #[trigger] call_ensures(pred, (&slice@[j],), b)
                    ==> !b,
            left > 0 ==> call_ensures(pred, (&slice@[left - 1],), true),
            right < slice@.len() ==> call_ensures(pred, (&slice@[right as int],), false),
        decreases right - left,
    {
        let mid = left + (right - left) / 2;
        let value = slice_index_get(slice, mid);
        if pred(value) {
            left = mid + 1;
        } else {
            right = mid;
        }
    }

    left
}

/// Branchless two-pointer predicate search: observably identical to
/// [`logic3`], but both cursors are reassigned unconditionally from the
/// single predicate outcome instead of inside a branch, so the compiled form
/// avoids a data-dependent jump.
pub fn logic4<T, P: Fn(&T) -> bool>(slice: &[T], pred: P) -> (r: usize)
    requires
        pred_callable(slice@, pred),
        pred_monotone(slice@, pred),
    ensures
        is_partition_point(slice@, pred, r as int),
{
    let mut left: usize = 0;
    let mut right: usize = slice.len();

    while left != right
        invariant
            pred_callable(slice@, pred),
            pred_monotone(slice@, pred),
            left <= right <= slice@.len(),
            forall|j: int, b: bool|
                0 <= j < left && #[trigger] call_ensures(pred, (&slice@[j],), b) ==> b,
            forall|j: int, b: bool|
                right <= j < slice@.len() && #[trigger] call_ensures(pred, (&slice@[j],), b)
                    ==> !b,
            left > 0 ==> call_ensures(pred, (&slice@[left - 1],), true),
            right < slice@.len() ==> call_ensures(pred, (&slice@[right as int],), false),
        decreases right - left,
    {
        let mid = left + (right - left) / 2;
        let is_ok = pred(slice_index_get(slice, mid));
        left = if is_ok {
            mid + 1
        } else {
            left
        };
        right = if is_ok {
            right
        } else {
            mid
        };
    }

    left
}

/// Partition-point adapter over [`logic1`]: the predicate becomes a
/// comparator that answers `Less` where the predicate holds and `Greater`
/// where it fails, and the dual outcome collapses back to the single
/// boundary index (such a comparator never answers `Equal`, so the search
/// always reports the insertion point).
pub fn partition_point_logic1<T, P: Fn(&T) -> bool>(slice: &[T], pred: P) -> (r: usize)
    requires
        pred_callable(slice@, pred),
        pred_monotone(slice@, pred),
    ensures
        is_partition_point(slice@, pred, r as int),
{
    let gpred: Ghost<P> = Ghost(pred);
    let cmp = |x: &T| -> (c: Ordering)
        requires
            call_requires(gpred@, (x,)),
        ensures
            exists|b: bool|
                #[trigger] call_ensures(gpred@, (x,), b) && c == (if b {
                    Ordering::Less
                } else {
                    Ordering::Greater
                }),
        {
            if pred(x) {
                Ordering::Less
            } else {
                Ordering::Greater
            }
        };
    proof {
        lemma_adapted_comparator_sorted(slice@, pred, cmp);
    }
    let out = logic1(slice, cmp);
    proof {
        lemma_adapted_outcome_is_partition_point(slice@, pred, cmp, out);
    }
    match out {
        Ok(i) => i,
        Err(i) => i,
    }
}

/// Partition-point adapter over [`logic2`]: same predicate-to-comparator
/// adaptation and outcome collapse as [`partition_point_logic1`].
pub fn partition_point_logic2<T, P: Fn(&T) -> bool>(slice: &[T], pred: P) -> (r: usize)
    requires
        pred_callable(slice@, pred),
        pred_monotone(slice@, pred),
    ensures
        is_partition_point(slice@, pred, r as int),
{
    let gpred: Ghost<P> = Ghost(pred);
    let cmp = |x: &T| -> (c: Ordering)
        requires
            call_requires(gpred@, (x,)),
        ensures
            exists|b: bool|
                #[trigger] call_ensures(gpred@, (x,), b) && c == (if b {
                    Ordering::Less
                } else {
                    Ordering::Greater
                }),
        {
            if pred(x) {
                Ordering::Less
            } else {
                Ordering::Greater
            }
        };
    proof {
        lemma_adapted_comparator_sorted(slice@, pred, cmp);
    }
    let out = logic2(slice, cmp);
    proof {
        lemma_adapted_outcome_is_partition_point(slice@, pred, cmp, out);
    }
    match out {
        Ok(i) => i,
        Err(i) => i,
    }
}

/// Partition-point adapter over [`logic3`]: the algorithm is already
/// predicate-shaped, so the predicate passes straight through.
pub fn partition_point_logic3<T, P: Fn(&T) -> bool>(slice: &[T], pred: P) -> (r: usize)
    requires
        pred_callable(slice@, pred),
        pred_monotone(slice@, pred),
    ensures
        is_partition_point(slice@, pred, r as int),
{
    logic3(slice, pred)
}

/// Partition-point adapter over [`logic4`]: the algorithm is already
/// predicate-shaped, so the predicate passes straight through.
pub fn partition_point_logic4<T, P: Fn(&T) -> bool>(slice: &[T], pred: P) -> (r: usize)
    requires
        pred_callable(slice@, pred),
        pred_monotone(slice@, pred),
    ensures
        is_partition_point(slice@, pred, r as int),
{
    logic4(slice, pred)
}

/// The comparator derived from a monotonic predicate (`Less` where it holds,
/// `Greater` where it fails) may be called on every element and respects the
/// sort order.
proof fn lemma_adapted_comparator_sorted<T, P: Fn(&T) -> bool, F: Fn(&T) -> Ordering>(
    s: Seq<T>,
    pred: P,
    cmp: F,
)
    requires
        pred_callable(s, pred),
        pred_monotone(s, pred),
        forall|x: T| #[trigger] call_requires(pred, (&x,)) ==> call_requires(cmp, (&x,)),
        forall|x: T, c: Ordering| #[trigger]
            call_ensures(cmp, (&x,), c) ==> exists|b: bool|
                #[trigger] call_ensures(pred, (&x,), b) && c == (if b {
                    Ordering::Less
                } else {
                    Ordering::Greater
                }),
    ensures
        cmp_callable(s, cmp),
        cmp_sorted(s, cmp),
{
    assert forall|i: int| 0 <= i < s.len() implies call_requires(cmp, (&s[i],)) by {
        assert(call_requires(pred, (&s[i],)));
    }
    assert forall|i: int, j: int, ci: Ordering, cj: Ordering|
        0 <= i <= j < s.len() && #[trigger] call_ensures(cmp, (&s[i],), ci) && #[trigger]
        call_ensures(cmp, (&s[j],), cj) implies crate::contract::ord_le(ci, cj) by {
        let bi = choose|b: bool|
            #[trigger] call_ensures(pred, (&s[i],), b) && ci == (if b {
                Ordering::Less
            } else {
                Ordering::Greater
            });
        let bj = choose|b: bool|
            #[trigger] call_ensures(pred, (&s[j],), b) && cj == (if b {
                Ordering::Less
            } else {
                Ordering::Greater
            });
        assert(bj ==> bi);
    }
}

/// Collapsing the dual outcome of a search with the adapted comparator gives
/// the predicate's partition point.
proof fn lemma_adapted_outcome_is_partition_point<T, P: Fn(&T) -> bool, F: Fn(&T) -> Ordering>(
    s: Seq<T>,
    pred: P,
    cmp: F,
    out: Result<usize, usize>,
)
    requires
        pred_monotone(s, pred),
        forall|x: T, c: Ordering| #[trigger]
            call_ensures(cmp, (&x,), c) ==> exists|b: bool|
                #[trigger] call_ensures(pred, (&x,), b) && c == (if b {
                    Ordering::Less
                } else {
                    Ordering::Greater
                }),
        is_search_outcome(s, cmp, out),
    ensures
        is_partition_point(
            s,
            pred,
            match out {
                Ok(i) => i as int,
                Err(i) => i as int,
            },
        ),
{
    match out {
        Ok(i) => {
            // The adapted comparator never answers `Equal`, so a found
            // outcome is impossible: its witnessed `Equal` refutes itself.
            let b = choose|b: bool|
                #[trigger] call_ensures(pred, (&s[i as int],), b) && Ordering::Equal == (if b {
                    Ordering::Less
                } else {
                    Ordering::Greater
                });
            assert(false);
        },
        Err(i) => {
            let i = i as int;
            if i > 0 {
                let b = choose|b: bool|
                    #[trigger] call_ensures(pred, (&s[i - 1],), b) && Ordering::Less == (if b {
                        Ordering::Less
                    } else {
                        Ordering::Greater
                    });
                assert(call_ensures(pred, (&s[i - 1],), true));
            }
            if i < s.len() {
                let b = choose|b: bool|
                    #[trigger] call_ensures(pred, (&s[i],), b) && Ordering::Greater == (if b {
                        Ordering::Less
                    } else {
                        Ordering::Greater
                    });
                assert(call_ensures(pred, (&s[i],), false));
            }
            assert forall|j: int, b: bool|
                0 <= j < i && #[trigger] call_ensures(pred, (&s[j],), b) implies b by {
                assert(call_ensures(pred, (&s[i - 1],), true));
            }
            assert forall|j: int, b: bool|
                i <= j < s.len() && #[trigger] call_ensures(pred, (&s[j],), b) implies !b by {
                assert(call_ensures(pred, (&s[i],), false));
            }
        },
    }
}

} // verus!
