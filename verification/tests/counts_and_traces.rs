use ordered_search::{logic1, logic2, logic3, logic4, partition_point_logic1};
use std::cell::{Cell, RefCell};
use std::cmp::Ordering;

fn ceil_log2(n: usize) -> usize {
    if n <= 1 {
        0
    } else {
        (usize::BITS - (n - 1).leading_zeros()) as usize
    }
}

fn counted_cmp<'a>(calls: &'a Cell<usize>, t: i64) -> impl Fn(&i64) -> Ordering + 'a {
    move |x: &i64| {
        calls.set(calls.get() + 1);
        x.cmp(&t)
    }
}

fn counted_pred<'a>(calls: &'a Cell<usize>, t: i64) -> impl Fn(&i64) -> bool + 'a {
    move |x: &i64| {
        calls.set(calls.get() + 1);
        *x < t
    }
}

#[test]
fn logic2_no_calls_on_empty() {
    let v: Vec<i64> = vec![];
    let calls = Cell::new(0usize);
    assert_eq!(logic2(&v, counted_cmp(&calls, 5)), Err(0));
    assert_eq!(calls.get(), 0);
}

#[test]
fn predicate_variants_no_calls_on_empty() {
    let v: Vec<i64> = vec![];
    let calls = Cell::new(0usize);
    assert_eq!(logic3(&v, counted_pred(&calls, 5)), 0);
    assert_eq!(calls.get(), 0);
    assert_eq!(logic4(&v, counted_pred(&calls, 5)), 0);
    assert_eq!(calls.get(), 0);
}

#[test]
fn logic2_call_count_bound() {
    for n in [1usize, 2, 3, 5, 7, 8, 100, 1000, 65536] {
        let v: Vec<i64> = (0..n as i64).collect();
        for t in [-1i64, 0, (n / 2) as i64, n as i64] {
            let calls = Cell::new(0usize);
            logic2(&v, counted_cmp(&calls, t));
            assert!(calls.get() <= ceil_log2(n) + 1);
        }
    }
}

#[test]
fn predicate_variants_call_count() {
    // At most ceil(log2(n + 1)) predicate calls for every boundary; exactly
    // that many when n + 1 is a power of two, where the two-pointer loop
    // probes the same depth wherever the boundary falls.
    for n in [0usize, 1, 2, 3, 5, 7, 15, 100, 65535] {
        let v: Vec<i64> = (0..n as i64).collect();
        let bound = ceil_log2(n + 1);
        let aligned = (n + 1).is_power_of_two();
        for t in -1..=(n as i64) {
            let calls = Cell::new(0usize);
            logic3(&v, counted_pred(&calls, t));
            assert!(calls.get() <= bound);
            if aligned {
                assert_eq!(calls.get(), bound);
            }
            let calls = Cell::new(0usize);
            logic4(&v, counted_pred(&calls, t));
            assert!(calls.get() <= bound);
            if aligned {
                assert_eq!(calls.get(), bound);
            }
        }
    }
}

#[test]
fn comparator_variants_counts_differ_but_stay_logarithmic() {
    let v: Vec<i64> = (0..7i64).collect();
    let c1 = Cell::new(0usize);
    let c2 = Cell::new(0usize);
    assert_eq!(logic1(&v, counted_cmp(&c1, -1)), Err(0));
    assert_eq!(logic2(&v, counted_cmp(&c2, -1)), Err(0));
    assert_ne!(c1.get(), c2.get());
    assert!(c1.get() <= ceil_log2(7) + 2);
    assert!(c2.get() <= ceil_log2(7) + 1);
}

fn traced_cmp<'a>(trace: &'a RefCell<Vec<(i64, i64)>>, t: i64) -> impl Fn(&i64) -> Ordering + 'a {
    move |x: &i64| {
        trace.borrow_mut().push((*x, t));
        x.cmp(&t)
    }
}

fn traced_pred<'a>(trace: &'a RefCell<Vec<(i64, i64)>>, t: i64) -> impl Fn(&i64) -> bool + 'a {
    move |x: &i64| {
        trace.borrow_mut().push((*x, t));
        *x < t
    }
}

#[test]
fn idempotent_results_and_traces() {
    let v: Vec<i64> = vec![0, 1, 2, 3, 4, 5, 6];
    for t in [-1i64, 1, 3, 6, 7] {
        let first = RefCell::new(Vec::new());
        let second = RefCell::new(Vec::new());
        let r1 = logic1(&v, traced_cmp(&first, t));
        let r2 = logic1(&v, traced_cmp(&second, t));
        assert_eq!(r1, r2);
        assert_eq!(first.into_inner(), second.into_inner());

        let first = RefCell::new(Vec::new());
        let second = RefCell::new(Vec::new());
        let r1 = logic2(&v, traced_cmp(&first, t));
        let r2 = logic2(&v, traced_cmp(&second, t));
        assert_eq!(r1, r2);
        assert_eq!(first.into_inner(), second.into_inner());

        let first = RefCell::new(Vec::new());
        let second = RefCell::new(Vec::new());
        let r1 = partition_point_logic1(&v, traced_pred(&first, t));
        let r2 = partition_point_logic1(&v, traced_pred(&second, t));
        assert_eq!(r1, r2);
        assert_eq!(first.into_inner(), second.into_inner());

        let first = RefCell::new(Vec::new());
        let second = RefCell::new(Vec::new());
        let r1 = logic3(&v, traced_pred(&first, t));
        let r2 = logic3(&v, traced_pred(&second, t));
        assert_eq!(r1, r2);
        assert_eq!(first.into_inner(), second.into_inner());
    }
}

#[test]
fn probe_order_per_variant() {
    // With every element above the target, each variant walks its own fixed
    // probe sequence over the seven ordinals; logic2's differs from the rest.
    let v: Vec<i64> = vec![0, 1, 2, 3, 4, 5, 6];
    let probes = |r: &RefCell<Vec<(i64, i64)>>| -> Vec<i64> {
        r.borrow().iter().map(|p| p.0).collect()
    };

    let tr = RefCell::new(Vec::new());
    assert_eq!(logic1(&v, traced_cmp(&tr, -1)), Err(0));
    assert_eq!(probes(&tr), vec![3, 1, 0]);

    let tr = RefCell::new(Vec::new());
    assert_eq!(logic2(&v, traced_cmp(&tr, -1)), Err(0));
    assert_eq!(probes(&tr), vec![3, 2, 1, 0]);

    let tr = RefCell::new(Vec::new());
    assert_eq!(logic3(&v, traced_pred(&tr, -1)), 0);
    assert_eq!(probes(&tr), vec![3, 1, 0]);

    let tr = RefCell::new(Vec::new());
    assert_eq!(logic4(&v, traced_pred(&tr, -1)), 0);
    assert_eq!(probes(&tr), vec![3, 1, 0]);
}
