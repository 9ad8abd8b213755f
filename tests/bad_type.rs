use shrink_bench::bad_type::{
    dependent_pair, dependent_triple, independent_pair, independent_triple, BadType, OrdBehavior,
};
use std::cmp::Ordering;

#[test]
fn new_stores_directives_reversed() {
    let v = BadType::new(7, vec![OrdBehavior::Flipped, OrdBehavior::Regular, OrdBehavior::Regular]);
    assert_eq!(v.value, 7);
    assert_eq!(
        v.ord_behavior,
        vec![OrdBehavior::Regular, OrdBehavior::Regular, OrdBehavior::Flipped]
    );
}

#[test]
fn comparisons_consume_directives_in_listed_order() {
    let mut a = BadType::new(5, vec![OrdBehavior::Flipped, OrdBehavior::Regular]);
    let b = BadType::new(10, vec![]);
    assert_eq!(a.cmp(&b), Ordering::Greater);
    assert_eq!(a.cmp(&b), Ordering::Less);
    assert!(a.ord_behavior.is_empty());
    // An empty queue compares by magnitude.
    assert_eq!(a.cmp(&b), Ordering::Less);
    assert_eq!(a.ord_behavior.len(), 0);
}

#[test]
fn flipped_equal_magnitudes_stay_equal() {
    let mut a = BadType::new(3, vec![OrdBehavior::Flipped]);
    let b = BadType::new(3, vec![]);
    assert_eq!(a.partial_cmp(&b), Some(Ordering::Equal));
}

#[test]
fn le_reports_flipped_order() {
    let mut a = BadType::new(5, vec![OrdBehavior::Flipped]);
    let b = BadType::new(10, vec![]);
    assert!(!a.le(&b));
    assert!(a.le(&b));
    let mut c = BadType::new(10, vec![OrdBehavior::Flipped]);
    let d = BadType::new(5, vec![]);
    assert!(c.le(&d));
}

#[test]
fn equality_leaves_queues_alone() {
    let a = BadType::new(4, vec![OrdBehavior::Flipped, OrdBehavior::Regular]);
    let b = BadType::new(4, vec![OrdBehavior::Regular]);
    let c = BadType::new(5, vec![]);
    for _ in 0..10 {
        assert!(a == b);
        assert!(a != c);
    }
    assert_eq!(a.ord_behavior.len(), 2);
    assert_eq!(b.ord_behavior.len(), 1);
}

#[test]
fn dependent_pair_is_strictly_increasing() {
    let first = BadType::new(9999, vec![OrdBehavior::Regular]);
    let (a, b) = dependent_pair(first, 1, vec![OrdBehavior::Flipped, OrdBehavior::Regular]);
    assert_eq!(a.value, 9999);
    assert_eq!(b.value, 10000);
    assert!(b.value > a.value);
    assert_eq!(b.ord_behavior, vec![OrdBehavior::Regular, OrdBehavior::Flipped]);
    let (x, y, z) = dependent_triple((a, b), 29999, vec![]);
    assert_eq!(x.value, 9999);
    assert_eq!(y.value, 10000);
    assert_eq!(z.value, 39999);
    assert!(z.ord_behavior.is_empty());
}

#[test]
fn independent_pair_may_be_equal() {
    let (a, b) = independent_pair(BadType::new(42, vec![]), BadType::new(0, vec![OrdBehavior::Flipped]));
    assert_eq!(a.value, 42);
    assert_eq!(b.value, 42);
    assert_eq!(b.ord_behavior, vec![OrdBehavior::Flipped]);
    let (c, d) = independent_pair(BadType::new(3, vec![]), BadType::new(8, vec![]));
    assert!(d.value >= c.value);
    assert_eq!(d.value, 11);
}

#[test]
fn independent_triple_adds_cumulatively() {
    let (a, b, c) = independent_triple(
        BadType::new(2, vec![]),
        BadType::new(3, vec![]),
        BadType::new(4, vec![OrdBehavior::Regular]),
    );
    assert_eq!((a.value, b.value, c.value), (2, 5, 9));
    assert_eq!(c.ord_behavior, vec![OrdBehavior::Regular]);
}
