use shrink_bench::bad_type::{BadType, OrdBehavior};
use shrink_bench::checks::{test_bad_type_pair, test_bad_type_triple, TestOutcome};
use shrink_bench::engine::{ShrinkAction, Shrinker};

fn v(value: u64, directives: Vec<OrdBehavior>) -> BadType {
    BadType::new(value, directives)
}

#[test]
fn empty_sequences_pass() {
    assert_eq!(test_bad_type_pair(vec![]), TestOutcome::Pass);
    assert_eq!(test_bad_type_triple(vec![]), TestOutcome::Pass);
}

#[test]
fn ordered_pairs_pass() {
    let input = vec![(v(1, vec![]), v(2, vec![])), (v(3, vec![OrdBehavior::Regular]), v(3, vec![]))];
    assert_eq!(test_bad_type_pair(input), TestOutcome::Pass);
}

#[test]
fn first_violating_pair_is_named() {
    let input = vec![
        (v(1, vec![]), v(2, vec![])),
        (v(1, vec![OrdBehavior::Flipped]), v(2, vec![])),
        (v(9, vec![]), v(2, vec![])),
    ];
    assert_eq!(
        test_bad_type_pair(input),
        TestOutcome::Fail("assertion failed: first <= second in tuple 1".to_string())
    );
}

#[test]
fn triple_reports_second_comparison() {
    let input = vec![
        (v(1, vec![]), v(2, vec![]), v(3, vec![])),
        (v(1, vec![]), v(2, vec![]), v(3, vec![])),
        (v(1, vec![]), v(2, vec![OrdBehavior::Flipped]), v(3, vec![])),
    ];
    assert_eq!(
        test_bad_type_triple(input),
        TestOutcome::Fail("assertion failed: second <= third in tuple 2".to_string())
    );
}

#[test]
fn triple_reports_first_comparison_first() {
    let input = vec![(
        v(1, vec![OrdBehavior::Flipped]),
        v(2, vec![OrdBehavior::Flipped]),
        v(3, vec![]),
    )];
    assert_eq!(
        test_bad_type_triple(input),
        TestOutcome::Fail("assertion failed: first <= second in tuple 0".to_string())
    );
}

#[test]
fn flipped_value_fails_and_shrinking_starts() {
    let a = v(5, vec![OrdBehavior::Flipped]);
    let b = v(10, vec![]);
    let outcome = test_bad_type_pair(vec![(a, b)]);
    assert!(matches!(outcome, TestOutcome::Fail(_)));
    // The search on a failing case starts by asking for a smaller candidate.
    let s = Shrinker::new();
    assert_eq!(s.next, ShrinkAction::Simplify);
    assert_eq!(s.iterations, 0);
}
