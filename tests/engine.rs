use shrink_bench::checks::TestOutcome;
use shrink_bench::engine::{Results, ShrinkAction, ShrinkMetrics, Shrinker};

fn m(iterations: u64, time_taken_micros: u128) -> ShrinkMetrics {
    ShrinkMetrics { iterations, time_taken_micros }
}

#[test]
fn results_start_empty() {
    let r = Results::new("pairs");
    assert_eq!(r.name, "pairs");
    assert_eq!(r.successes, 0);
    assert!(r.shrink_metrics.is_empty());
}

#[test]
fn only_failures_advance_the_count() {
    // One failure in every three trials.
    let mut r = Results::new("pairs");
    let total: usize = 4;
    let mut trial: u64 = 0;
    while r.wants_more(total) {
        if trial % 3 == 2 {
            r.record(Err(m(trial, 10)));
        } else {
            r.record(Ok(()));
        }
        trial += 1;
    }
    assert_eq!(r.shrink_metrics.len(), 4);
    assert_eq!(r.successes, 8);
    assert_eq!(r.shrink_metrics[0], m(2, 10));
    assert_eq!(r.shrink_metrics[3], m(11, 10));
}

#[test]
fn every_trial_failing_collects_total() {
    let mut r = Results::new("t");
    while r.wants_more(3) {
        r.record(Err(m(1, 1)));
    }
    assert_eq!(r.shrink_metrics.len(), 3);
    assert_eq!(r.successes, 0);
}

#[test]
fn refused_first_simplify_counts_no_iteration() {
    let mut s = Shrinker::new();
    s.moved(false);
    assert_eq!(s.next, ShrinkAction::Finish);
    assert_eq!(s.metrics(25), m(0, 25));
}

#[test]
fn failure_simplifies_and_pass_complicates() {
    let mut s = Shrinker::new();
    s.moved(true);
    assert_eq!(s.next, ShrinkAction::RunTest);
    s.tested(&TestOutcome::Fail("still failing".to_string()));
    assert_eq!(s.next, ShrinkAction::Simplify);
    s.moved(true);
    s.tested(&TestOutcome::Pass);
    assert_eq!(s.next, ShrinkAction::Complicate);
    s.moved(true);
    s.tested(&TestOutcome::Reject("not applicable".to_string()));
    assert_eq!(s.next, ShrinkAction::Complicate);
    s.moved(false);
    assert_eq!(s.next, ShrinkAction::Finish);
    assert_eq!(s.iterations, 3);
    assert_eq!(s.metrics(7).iterations, 3);
}
