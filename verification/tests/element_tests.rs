use ordered_search::Slow;
use std::cmp::Ordering;

#[test]
fn slow_new_and_equality() {
    assert_eq!(Slow::new(3), Slow::new(3));
    assert_ne!(Slow::new(3), Slow::new(4));
    assert_ne!(Slow::new(-1), Slow::new(1));
}

#[test]
fn slow_compare_three_way() {
    let a = Slow::new(1);
    let b = Slow::new(2);
    assert_eq!(a.compare(&b), Ordering::Less);
    assert_eq!(b.compare(&a), Ordering::Greater);
    assert_eq!(a.compare(&Slow::new(1)), Ordering::Equal);
}

#[test]
fn slow_partial_ord_matches_compare() {
    assert!(Slow::new(1) < Slow::new(2));
    assert!(Slow::new(2) > Slow::new(1));
    assert!(!(Slow::new(2) < Slow::new(2)));
    assert!(Slow::new(2) <= Slow::new(2));
    assert_eq!(
        Slow::new(5).partial_cmp(&Slow::new(7)),
        Some(Ordering::Less)
    );
}
