//! The scheduler's state machine: which probe attempt may start next,
//! bounded concurrency per spec, prompt cancellation, and the grouped
//! result list.
//!
//! The caller (outside this crate) owns the actual probe I/O: it asks
//! `begin_next` which attempt may start, runs the probe, and hands the
//! outcome back through `record_outcome`. Every scheduling decision is
//! made and verified here.

use vstd::prelude::*;
use crate::model::{FailureReason, OutcomeView, ProbeOutcome, ProbeSpec, clone_outcome,
    lemma_outcomes_view_push, outcomes_view, valid_target, validate_target};

verus! {

/// The fatal setup error: a malformed target is rejected before any
/// probe is scheduled.
#[derive(Clone, Copy, Debug, PartialEq, Eq, Structural)]
pub enum SetupError {
    /// Index of a probe spec whose target is malformed.
    InvalidTarget(usize),
}

/// Bookkeeping for one run: per spec, how many attempts have started
/// and finished, the outcomes recorded so far, and whether the run was
/// cancelled.
pub struct Scheduler {
    /// The probe specs, in caller order; results keep this grouping.
    pub specs: Vec<ProbeSpec>,
    /// Per spec: attempts handed out so far.
    pub started: Vec<u32>,
    /// Per spec: attempts whose outcome has been recorded.
    pub finished: Vec<u32>,
    /// Per spec: recorded outcomes, in completion order.
    pub outcomes: Vec<Vec<ProbeOutcome>>,
    /// Once set, no further attempt ever starts.
    pub cancelled: bool,
}

impl Scheduler {
    /// Attempts of spec `i` currently in flight.
    pub open spec fn in_flight(self, i: int) -> int {
        self.started@[i] - self.finished@[i]
    }

    /// The scheduler's invariant. In particular, the in-flight count of
    /// every spec never exceeds that spec's concurrency limit, and every
    /// recorded outcome is well formed and of its spec's kind.
    pub open spec fn wf(self) -> bool {
        &&& self.started@.len() == self.specs@.len()
        &&& self.finished@.len() == self.specs@.len()
        &&& self.outcomes@.len() == self.specs@.len()
        &&& forall|i: int| 0 <= i < self.specs@.len() ==> (#[trigger] self.specs@[i]).wf()
        &&& forall|i: int|
            0 <= i < self.specs@.len() ==> self.finished@[i] <= #[trigger] self.started@[i]
        &&& forall|i: int|
            0 <= i < self.specs@.len() ==> #[trigger] self.started@[i]
                <= self.specs@[i].repetitions
        &&& forall|i: int|
            0 <= i < self.specs@.len() ==> #[trigger] self.started@[i] - self.finished@[i]
                <= self.specs@[i].concurrency
        &&& forall|i: int|
            0 <= i < self.specs@.len() ==> (#[trigger] self.outcomes@[i])@.len()
                == self.finished@[i]
        &&& forall|i: int, j: int|
            0 <= i < self.specs@.len() && 0 <= j < self.outcomes@[i]@.len() ==> (
            #[trigger] self.outcomes@[i]@[j])@.wf() && self.outcomes@[i]@[j]@.kind()
                == self.specs@[i].kind
    }

    /// Whether spec `i` may start another attempt: it still owes
    /// repetitions and its concurrency limit leaves room.
    pub open spec fn startable(self, i: int) -> bool {
        &&& 0 <= i < self.specs@.len()
        &&& self.started@[i] < self.specs@[i].repetitions
        &&& self.started@[i] - self.finished@[i] < self.specs@[i].concurrency
    }

    /// No attempt is in flight.
    pub open spec fn idle(self) -> bool {
        forall|i: int| 0 <= i < self.specs@.len() ==> #[trigger] self.started@[i]
            == self.finished@[i]
    }

    /// Every owed attempt has a recorded outcome.
    pub open spec fn complete(self) -> bool {
        forall|i: int| 0 <= i < self.specs@.len() ==> #[trigger] self.finished@[i]
            == self.specs@[i].repetitions
    }

    /// The outcomes the run owes for spec `i`: the recorded ones in
    /// completion order, then one Cancelled failure per attempt that
    /// never finished.
    pub open spec fn group_view(self, i: int) -> Seq<OutcomeView> {
        outcomes_view(self.outcomes@[i]@) + Seq::new(
            (self.specs@[i].repetitions - self.finished@[i]) as nat,
            |j: int| OutcomeView::Failed {
                kind: self.specs@[i].kind,
                reason: FailureReason::Cancelled,
            },
        )
    }

    /// The first `i` result groups, concatenated in spec order.
    pub open spec fn result_prefix(self, i: int) -> Seq<OutcomeView>
        decreases i,
    {
        if i <= 0 {
            Seq::empty()
        } else {
            self.result_prefix(i - 1) + self.group_view(i - 1)
        }
    }

    /// The whole run's outcome list: grouped by spec in caller order.
    pub open spec fn result_view(self) -> Seq<OutcomeView> {
        self.result_prefix(self.specs@.len() as int)
    }

    /// Sets up a run. Every target is validated first: a malformed one
    /// is the fatal `InvalidTarget` error, and nothing is scheduled.
    pub fn new(specs: Vec<ProbeSpec>) -> (r: Result<Scheduler, SetupError>)
        requires
            forall|i: int| 0 <= i < specs@.len() ==> 1 <= (#[trigger] specs@[i]).concurrency,
        ensures
            r is Ok <==> (forall|i: int|
                0 <= i < specs@.len() ==> valid_target((#[trigger] specs@[i]).target@)),
            match r {
                Ok(s) => {
                    &&& s.wf()
                    &&& s.specs@ == specs@
                    &&& !s.cancelled
                    &&& forall|i: int| 0 <= i < specs@.len() ==> #[trigger] s.started@[i] == 0
                    &&& forall|i: int| 0 <= i < specs@.len() ==> #[trigger] s.finished@[i] == 0
                },
                Err(e) => {
                    &&& e matches SetupError::InvalidTarget(i)
                    &&& (e matches SetupError::InvalidTarget(i) ==> i < specs@.len()
                        && !valid_target(specs@[i as int].target@))
                },
            },
    {
        let n = specs.len();
        let mut i: usize = 0;
        while i < n
            invariant
                n == specs@.len(),
                i <= n,
                forall|j: int| 0 <= j < i ==> valid_target((#[trigger] specs@[j]).target@),
            decreases n - i,
        {
            if !validate_target(specs[i].target.as_str()) {
                return Err(SetupError::InvalidTarget(i));
            }
            i = i + 1;
        }
        let mut started: Vec<u32> = Vec::new();
        let mut finished: Vec<u32> = Vec::new();
        let mut outcomes: Vec<Vec<ProbeOutcome>> = Vec::new();
        let mut j: usize = 0;
        while j < n
            invariant
                j <= n,
                started@.len() == j,
                finished@.len() == j,
                outcomes@.len() == j,
                forall|t: int| 0 <= t < j ==> #[trigger] started@[t] == 0,
                forall|t: int| 0 <= t < j ==> #[trigger] finished@[t] == 0,
                forall|t: int| 0 <= t < j ==> (#[trigger] outcomes@[t])@.len() == 0,
            decreases n - j,
        {
            started.push(0);
            finished.push(0);
            outcomes.push(Vec::new());
            j = j + 1;
        }
        Ok(Scheduler { specs, started, finished, outcomes, cancelled: false })
    }

    /// Picks the next attempt allowed to start, marking it in flight:
    /// the first spec that still owes attempts and has concurrency room.
    /// After cancellation, or when no spec qualifies, nothing starts and
    /// the state is unchanged.
    pub fn begin_next(&mut self) -> (r: Option<usize>)
        requires
            old(self).wf(),
        ensures
            final(self).wf(),
            final(self).specs@ == old(self).specs@,
            final(self).finished@ == old(self).finished@,
            final(self).outcomes@ == old(self).outcomes@,
            final(self).cancelled == old(self).cancelled,
            match r {
                Some(i) => {
                    &&& !old(self).cancelled
                    &&& old(self).startable(i as int)
                    &&& final(self).started@ == old(self).started@.update(
                        i as int,
                        (old(self).started@[i as int] + 1) as u32,
                    )
                },
                None => {
                    &&& final(self).started@ == old(self).started@
                    &&& (old(self).cancelled || forall|i: int|
                        0 <= i < old(self).specs@.len() ==> !old(self).startable(i))
                },
            },
    {
        if self.cancelled {
            return None;
        }
        let n = self.specs.len();
        let mut i: usize = 0;
        while i < n
            invariant
                old(self).wf(),
                *self == *old(self),
                !old(self).cancelled,
                n == self.specs@.len(),
                i <= n,
                forall|j: int| 0 <= j < i ==> !old(self).startable(j),
            decreases n - i,
        {
            let s = self.started[i];
            let f = self.finished[i];
            if s < self.specs[i].repetitions && s - f < self.specs[i].concurrency {
                self.started[i] = s + 1;
                return Some(i);
            }
            i = i + 1;
        }
        None
    }

    /// Records the outcome of one in-flight attempt of spec `i`.
    pub fn record_outcome(&mut self, i: usize, outcome: ProbeOutcome)
        requires
            old(self).wf(),
            i < old(self).specs@.len(),
            old(self).finished@[i as int] < old(self).started@[i as int],
            outcome@.wf(),
            outcome@.kind() == old(self).specs@[i as int].kind,
        ensures
            final(self).wf(),
            final(self).specs@ == old(self).specs@,
            final(self).started@ == old(self).started@,
            final(self).cancelled == old(self).cancelled,
            final(self).finished@ == old(self).finished@.update(
                i as int,
                (old(self).finished@[i as int] + 1) as u32,
            ),
            final(self).outcomes@.len() == old(self).outcomes@.len(),
            forall|j: int|
                0 <= j < old(self).outcomes@.len() && j != i ==> final(self).outcomes@[j] == old(
                    self,
                ).outcomes@[j],
            final(self).outcomes@[i as int]@ == old(self).outcomes@[i as int]@.push(outcome),
    {
        let f = self.finished[i];
        let mut inner = self.outcomes.remove(i);
        inner.push(outcome);
        self.outcomes.insert(i, inner);
        self.finished[i] = f + 1;
        proof {
            assert(final(self).outcomes@ =~= old(self).outcomes@.update(
                i as int,
                final(self).outcomes@[i as int],
            ));
        }
    }

    /// Cancels the run: from here on `begin_next` starts nothing, and
    /// unfinished attempts are reported as Cancelled failures.
    pub fn cancel(&mut self)
        requires
            old(self).wf(),
        ensures
            final(self).wf(),
            final(self).cancelled,
            final(self).specs@ == old(self).specs@,
            final(self).started@ == old(self).started@,
            final(self).finished@ == old(self).finished@,
            final(self).outcomes@ == old(self).outcomes@,
    {
        self.cancelled = true;
    }

    /// Whether the run was cancelled.
    pub fn is_cancelled(&self) -> (r: bool)
        ensures
            r == self.cancelled,
    {
        self.cancelled
    }

    /// Whether no attempt is currently in flight.
    pub fn is_idle(&self) -> (r: bool)
        requires
            self.wf(),
        ensures
            r == self.idle(),
    {
        let n = self.specs.len();
        let mut i: usize = 0;
        while i < n
            invariant
                self.wf(),
                n == self.specs@.len(),
                i <= n,
                forall|j: int| 0 <= j < i ==> #[trigger] self.started@[j] == self.finished@[j],
            decreases n - i,
        {
            if self.started[i] != self.finished[i] {
                return false;
            }
            i = i + 1;
        }
        true
    }

    /// Assembles the run's outcome list: grouped by spec in caller
    /// order, each group the recorded outcomes in completion order
    /// followed by one Cancelled failure per attempt never finished.
    pub fn collect(&self) -> (r: Vec<ProbeOutcome>)
        requires
            self.wf(),
        ensures
            outcomes_view(r@) == self.result_view(),
    {
        let mut r: Vec<ProbeOutcome> = Vec::new();
        let n = self.specs.len();
        let mut i: usize = 0;
        while i < n
            invariant
                self.wf(),
                n == self.specs@.len(),
                i <= n,
                outcomes_view(r@) == self.result_prefix(i as int),
            decreases n - i,
        {
            let group = &self.outcomes[i];
            let glen = group.len();
            let mut j: usize = 0;
            while j < glen
                invariant
                    self.wf(),
                    n == self.specs@.len(),
                    i < n,
                    glen == self.outcomes@[i as int]@.len(),
                    j <= glen,
                    outcomes_view(r@) == self.result_prefix(i as int) + outcomes_view(
                        self.outcomes@[i as int]@.take(j as int),
                    ),
                decreases glen - j,
            {
                let o = clone_outcome(&self.outcomes[i][j]);
                proof {
                    lemma_outcomes_view_push(r@, o);
                    assert(self.outcomes@[i as int]@.take(j as int + 1) =~= self.outcomes@[i
                        as int]@.take(j as int).push(self.outcomes@[i as int]@[j as int]));
                    lemma_outcomes_view_push(
                        self.outcomes@[i as int]@.take(j as int),
                        self.outcomes@[i as int]@[j as int],
                    );
                }
                r.push(o);
                proof {
                    assert(outcomes_view(r@) =~= self.result_prefix(i as int) + outcomes_view(
                        self.outcomes@[i as int]@.take(j as int + 1),
                    ));
                }
                j = j + 1;
            }
            let done = self.finished[i];
            let owed = self.specs[i].repetitions;
            let kind = self.specs[i].kind;
            proof {
                assert(self.finished@[i as int] <= self.started@[i as int]);
                assert(self.started@[i as int] <= self.specs@[i as int].repetitions);
                assert(self.outcomes@[i as int]@.take(glen as int) =~= self.outcomes@[i
                    as int]@);
                assert(outcomes_view(r@) =~= self.result_prefix(i as int) + outcomes_view(
                    self.outcomes@[i as int]@,
                ) + Seq::new(
                    0nat,
                    |t: int| OutcomeView::Failed { kind, reason: FailureReason::Cancelled },
                ));
            }
            let mut c: u32 = done;
            while c < owed
                invariant
                    self.wf(),
                    n == self.specs@.len(),
                    i < n,
                    done == self.finished@[i as int],
                    owed == self.specs@[i as int].repetitions,
                    kind == self.specs@[i as int].kind,
                    done <= c <= owed,
                    outcomes_view(r@) == self.result_prefix(i as int) + outcomes_view(
                        self.outcomes@[i as int]@,
                    ) + Seq::new(
                        (c - done) as nat,
                        |t: int| OutcomeView::Failed { kind, reason: FailureReason::Cancelled },
                    ),
                decreases owed - c,
            {
                proof {
                    lemma_outcomes_view_push(
                        r@,
                        ProbeOutcome::Failed { kind, reason: FailureReason::Cancelled },
                    );
                }
                r.push(ProbeOutcome::Failed { kind, reason: FailureReason::Cancelled });
                proof {
                    assert(outcomes_view(r@) =~= self.result_prefix(i as int) + outcomes_view(
                        self.outcomes@[i as int]@,
                    ) + Seq::new(
                        (c + 1 - done) as nat,
                        |t: int| OutcomeView::Failed { kind, reason: FailureReason::Cancelled },
                    ));
                }
                c = c + 1;
            }
            proof {
                assert(self.outcomes@[i as int]@.take(glen as int) =~= self.outcomes@[i as int]@);
                assert(outcomes_view(r@) =~= self.result_prefix(i as int + 1));
            }
            i = i + 1;
        }
        r
    }
}

/// Law: a well-formed scheduler never has more attempts of a spec in
/// flight than that spec's configured concurrency limit. `begin_next`
/// preserves well-formedness, so the bound holds at every instant of a
/// run.
pub proof fn lemma_concurrency_bounded(s: Scheduler, i: int)
    requires
        s.wf(),
        0 <= i < s.specs@.len(),
    ensures
        s.in_flight(i) <= s.specs@[i].concurrency,
{
}

/// How many attempts a spec list owes in total.
pub open spec fn total_repetitions(specs: Seq<ProbeSpec>) -> nat
    decreases specs.len(),
{
    if specs.len() == 0 {
        0
    } else {
        total_repetitions(specs.drop_last()) + specs.last().repetitions as nat
    }
}

/// Law: no attempt is ever left unresolved. Each result group holds
/// exactly the repetitions its spec owes, and every attempt that never
/// finished appears as a Cancelled failure of the spec's kind.
pub proof fn lemma_no_attempt_unresolved(s: Scheduler, i: int)
    requires
        s.wf(),
        0 <= i < s.specs@.len(),
    ensures
        s.group_view(i).len() == s.specs@[i].repetitions,
        forall|j: int|
            s.finished@[i] <= j < s.specs@[i].repetitions ==> s.group_view(i)[j] == (
            OutcomeView::Failed { kind: s.specs@[i].kind, reason: FailureReason::Cancelled }),
{
    assert(s.finished@[i] <= s.started@[i]);
    assert(s.started@[i] <= s.specs@[i].repetitions);
    assert(s.outcomes@[i]@.len() == s.finished@[i]);
    assert(outcomes_view(s.outcomes@[i]@).len() == s.outcomes@[i]@.len());
}

/// A run that completed every owed attempt reports exactly the recorded
/// outcomes: no Cancelled filler appears in its result.
pub proof fn lemma_complete_run_fully_recorded(s: Scheduler, i: int)
    requires
        s.wf(),
        s.complete(),
        0 <= i < s.specs@.len(),
    ensures
        s.group_view(i) == outcomes_view(s.outcomes@[i]@),
{
    assert(s.group_view(i) =~= outcomes_view(s.outcomes@[i]@));
}

/// The first `i` result groups hold exactly the attempts the first `i`
/// specs owe.
proof fn lemma_result_prefix_len(s: Scheduler, i: int)
    requires
        s.wf(),
        0 <= i <= s.specs@.len(),
    ensures
        s.result_prefix(i).len() == total_repetitions(s.specs@.take(i)),
    decreases i,
{
    if i > 0 {
        lemma_result_prefix_len(s, i - 1);
        lemma_no_attempt_unresolved(s, i - 1);
        assert(s.specs@.take(i).drop_last() =~= s.specs@.take(i - 1));
    }
}

/// Law: the collected result accounts for every owed attempt, exactly
/// once, whether the run completed or was cancelled.
pub proof fn lemma_result_accounts_for_all(s: Scheduler)
    requires
        s.wf(),
    ensures
        s.result_view().len() == total_repetitions(s.specs@),
{
    lemma_result_prefix_len(s, s.specs@.len() as int);
    assert(s.specs@.take(s.specs@.len() as int) =~= s.specs@);
}

} // verus!
