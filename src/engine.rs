use crate::checks::TestOutcome;
use vstd::prelude::*;

verus! {

/// What one shrink search cost.
#[derive(Clone, Copy, Debug, PartialEq, Eq, Structural)]
pub struct ShrinkMetrics {
    /// How many candidates the search ran the property on.
    pub iterations: u64,
    /// Wall-clock time of the search, in microseconds.
    pub time_taken_micros: u128,
}

/// The tally of one scenario: passing trials and one record per failure.
#[derive(Clone, Debug)]
pub struct Results {
    pub name: &'static str,
    pub successes: usize,
    pub shrink_metrics: Vec<ShrinkMetrics>,
}

/// The tally after one more trial: a pass is counted, a failure is recorded.
pub open spec fn record_spec(successes: nat, metrics: Seq<ShrinkMetrics>, trial: Result<
    (),
    ShrinkMetrics,
>) -> (nat, Seq<ShrinkMetrics>) {
    match trial {
        Ok(()) => (successes + 1, metrics),
        Err(m) => (successes, metrics.push(m)),
    }
}

/// The tally reached by feeding `trials` in order while fewer than `total`
/// failures are recorded; the trials left over are never run.
pub open spec fn collect_spec(
    successes: nat,
    metrics: Seq<ShrinkMetrics>,
    trials: Seq<Result<(), ShrinkMetrics>>,
    total: nat,
) -> (nat, Seq<ShrinkMetrics>)
    decreases trials.len(),
{
    if metrics.len() >= total || trials.len() == 0 {
        (successes, metrics)
    } else {
        let next = record_spec(successes, metrics, trials[0]);
        collect_spec(next.0, next.1, trials.drop_first(), total)
    }
}

/// The number of failures among `trials`.
pub open spec fn failure_count(trials: Seq<Result<(), ShrinkMetrics>>) -> nat
    decreases trials.len(),
{
    if trials.len() == 0 {
        0
    } else {
        failure_count(trials.drop_first()) + if trials[0] is Err {
            1nat
        } else {
            0nat
        }
    }
}

impl Results {
    /// An empty tally for the scenario `name`.
    pub fn new(name: &'static str) -> (r: Results)
        ensures
            r.name == name,
            r.successes == 0,
            r.shrink_metrics@ == Seq::<ShrinkMetrics>::empty(),
    {
        Results { name, successes: 0, shrink_metrics: Vec::new() }
    }

    /// Whether fewer than `total` failures are recorded, so that the scenario
    /// runs another trial.
    pub fn wants_more(&self, total: usize) -> (r: bool)
        ensures
            r == (self.shrink_metrics@.len() < total),
    {
        self.shrink_metrics.len() < total
    }

    /// Adds the result of one trial: `Ok` for a pass, `Err` with the cost of
    /// the shrink search for a failure.
    pub fn record(&mut self, trial: Result<(), ShrinkMetrics>)
        requires
            trial is Ok ==> old(self).successes < usize::MAX,
        ensures
            final(self).name == old(self).name,
            (final(self).successes as nat, final(self).shrink_metrics@) == record_spec(
                old(self).successes as nat,
                old(self).shrink_metrics@,
                trial,
            ),
    {
        match trial {
            Ok(()) => {
                self.successes = self.successes + 1;
            },
            Err(m) => {
                self.shrink_metrics.push(m);
            },
        }
    }
}

/// Running a scenario until it holds `total` failures ends with exactly
/// `total` failure records, whatever number of passing trials came between,
/// as soon as the trials drawn contain `total` failures.
pub proof fn lemma_collects_exactly_total(
    successes: nat,
    metrics: Seq<ShrinkMetrics>,
    trials: Seq<Result<(), ShrinkMetrics>>,
    total: nat,
)
    requires
        metrics.len() <= total,
        metrics.len() + failure_count(trials) >= total,
    ensures
        collect_spec(successes, metrics, trials, total).1.len() == total,
        collect_spec(successes, metrics, trials, total).1.subrange(0, metrics.len() as int)
            == metrics,
    decreases trials.len(),
{
    if metrics.len() >= total || trials.len() == 0 {
        assert(metrics.subrange(0, metrics.len() as int) =~= metrics);
    } else {
        let next = record_spec(successes, metrics, trials[0]);
        lemma_collects_exactly_total(next.0, next.1, trials.drop_first(), total);
        let out = collect_spec(next.0, next.1, trials.drop_first(), total).1;
        assert(out.subrange(0, metrics.len() as int) =~= out.subrange(
            0,
            next.1.len() as int,
        ).subrange(0, metrics.len() as int));
        assert(next.1.subrange(0, metrics.len() as int) =~= metrics);
    }
}

/// The step that the shrink search asks for next.
#[derive(Clone, Copy, Debug, PartialEq, Eq, Structural)]
pub enum ShrinkAction {
    /// Move the value tree to a smaller candidate.
    Simplify,
    /// Move the value tree back toward the last larger candidate.
    Complicate,
    /// Run the property on the tree's current candidate.
    RunTest,
    /// The search is over.
    Finish,
}

/// The number of `true` answers in `moves`.
pub open spec fn count_true(moves: Seq<bool>) -> nat
    decreases moves.len(),
{
    if moves.len() == 0 {
        0
    } else {
        count_true(moves.drop_last()) + if moves.last() {
            1nat
        } else {
            0nat
        }
    }
}

/// The decisions of a shrink search over a value tree whose first candidate
/// is known to fail.
///
/// The caller performs each action that `next` names and reports back: the
/// tree's answer to a move, or the outcome of the property on the current
/// candidate. `moves` holds the tree's answers to the moves so far.
pub struct Shrinker {
    pub iterations: u64,
    pub next: ShrinkAction,
    pub moves: Ghost<Seq<bool>>,
}

impl Shrinker {
    /// Every move but a final refused one succeeded, and each success led to
    /// one run of the property.
    pub open spec fn wf(&self) -> bool {
        let moves = self.moves@;
        &&& (moves.len() == 0 ==> self.next == ShrinkAction::Simplify)
        &&& if self.next == ShrinkAction::Finish {
            &&& moves.len() >= 1
            &&& !moves.last()
            &&& forall|i: int| 0 <= i < moves.len() - 1 ==> #[trigger] moves[i]
            &&& self.iterations == moves.len() - 1
        } else {
            &&& forall|i: int| 0 <= i < moves.len() ==> #[trigger] moves[i]
            &&& self.iterations == moves.len()
            &&& (self.next == ShrinkAction::RunTest ==> moves.len() >= 1)
        }
    }

    /// A search that first tries to simplify.
    pub fn new() -> (r: Shrinker)
        ensures
            r.wf(),
            r.next == ShrinkAction::Simplify,
            r.iterations == 0,
            r.moves@ == Seq::<bool>::empty(),
    {
        Shrinker { iterations: 0, next: ShrinkAction::Simplify, moves: Ghost(Seq::empty()) }
    }

    /// Takes the tree's answer to the move that `next` asked for: a success
    /// leads to a run of the property, a refusal ends the search.
    pub fn moved(&mut self, did_move: bool)
        requires
            old(self).wf(),
            old(self).next == ShrinkAction::Simplify || old(self).next == ShrinkAction::Complicate,
            old(self).iterations < u64::MAX,
        ensures
            final(self).wf(),
            final(self).moves@ == old(self).moves@.push(did_move),
            did_move ==> final(self).iterations == old(self).iterations + 1 && final(self).next
                == ShrinkAction::RunTest,
            !did_move ==> final(self).iterations == old(self).iterations && final(self).next
                == ShrinkAction::Finish,
    {
        proof {
            self.moves@ = self.moves@.push(did_move);
        }
        if did_move {
            self.iterations = self.iterations + 1;
            self.next = ShrinkAction::RunTest;
        } else {
            self.next = ShrinkAction::Finish;
        }
    }

    /// Takes the outcome of the property on the current candidate: a failure
    /// shrinks further, a pass or a rejection steps back.
    pub fn tested(&mut self, outcome: &TestOutcome)
        requires
            old(self).wf(),
            old(self).next == ShrinkAction::RunTest,
        ensures
            final(self).wf(),
            final(self).moves@ == old(self).moves@,
            final(self).iterations == old(self).iterations,
            final(self).next == if outcome is Fail {
                ShrinkAction::Simplify
            } else {
                ShrinkAction::Complicate
            },
    {
        match outcome {
            TestOutcome::Fail(_) => {
                self.next = ShrinkAction::Simplify;
            },
            _ => {
                self.next = ShrinkAction::Complicate;
            },
        }
    }

    /// The cost of a finished search that took `time_taken_micros`.
    pub fn metrics(&self, time_taken_micros: u128) -> (r: ShrinkMetrics)
        ensures
            r.iterations == self.iterations,
            r.time_taken_micros == time_taken_micros,
    {
        ShrinkMetrics { iterations: self.iterations, time_taken_micros }
    }
}

proof fn lemma_count_all_true(moves: Seq<bool>)
    requires
        forall|i: int| 0 <= i < moves.len() ==> #[trigger] moves[i],
    ensures
        count_true(moves) == moves.len(),
    decreases moves.len(),
{
    if moves.len() > 0 {
        lemma_count_all_true(moves.drop_last());
    }
}

/// A shrink search over a tree that grants at most `depth` moves asks for at
/// most `depth + 1` moves and runs the property at most `depth` times, once
/// per granted move; a finished search counts no iteration exactly when its
/// first simplification was refused.
pub proof fn lemma_shrink_bounded(s: Shrinker, depth: nat)
    requires
        s.wf(),
        count_true(s.moves@) <= depth,
    ensures
        s.iterations == count_true(s.moves@),
        s.iterations <= depth,
        s.moves@.len() <= depth + 1,
        s.next == ShrinkAction::Finish ==> (s.iterations == 0 <==> !s.moves@[0]),
{
    let moves = s.moves@;
    if s.next == ShrinkAction::Finish {
        lemma_count_all_true(moves.drop_last());
        assert(moves.drop_last().len() == moves.len() - 1);
    } else {
        lemma_count_all_true(moves);
    }
}

} // verus!
