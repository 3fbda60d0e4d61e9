//! The aggregator: reduces raw probe outcomes to one metric summary per
//! probe kind (mean, jitter, loss ratio, attempt count).

use vstd::prelude::*;
use crate::model::{OutcomeView, ProbeKind, ProbeOutcome, Sample, VALUE_MAX, outcomes_view};
use crate::numeric::{isqrt_u128, spec_isqrt};

verus! {

/// Most attempts one kind may accumulate in one run (2^30), so that all
/// fixed-point accumulators provably fit in 128 bits.
pub const MAX_KIND_ATTEMPTS: u64 = 0x4000_0000;

/// The mean over successful samples; `Undefined` flags a kind whose every
/// attempt failed, so the gap is explicit instead of a silent zero.
#[derive(Clone, Copy, Debug, PartialEq, Eq, Structural)]
pub enum MeanValue {
    /// Mean in thousandths of the kind's unit.
    Defined(u64),
    /// No successful sample existed to take a mean over.
    Undefined,
}

/// Per-kind aggregate, derived once and never mutated: mean and jitter
/// over the successful samples, loss as the exact ratio of failed to
/// total attempts.
#[derive(Clone, Copy, Debug, PartialEq, Eq, Structural)]
pub struct MetricSummary {
    pub kind: ProbeKind,
    /// Mean of successful sample values, in thousandths of the unit.
    pub mean: MeanValue,
    /// Standard deviation of successful sample values, in thousandths;
    /// zero when no successful sample exists.
    pub jitter_milli: u64,
    /// Attempts that failed, the loss ratio's numerator.
    pub failed: u64,
    /// All attempts of this kind, the loss ratio's denominator.
    pub attempts: u64,
}

impl MetricSummary {
    /// A summary is well formed when it counts at least one attempt and
    /// no more failures than attempts, so its loss ratio lies in [0, 1].
    pub open spec fn wf(self) -> bool {
        &&& 1 <= self.attempts
        &&& self.failed <= self.attempts
    }
}

/// How many failed attempts a sample run contains.
pub open spec fn samples_failures(ss: Seq<Sample>) -> nat
    decreases ss.len(),
{
    if ss.len() == 0 {
        0
    } else {
        samples_failures(ss.drop_last()) + if ss.last().success {
            0nat
        } else {
            1nat
        }
    }
}

/// The sum of the values of the successful samples.
pub open spec fn samples_success_sum(ss: Seq<Sample>) -> int
    decreases ss.len(),
{
    if ss.len() == 0 {
        0
    } else {
        samples_success_sum(ss.drop_last()) + if ss.last().success {
            ss.last().value_milli as int
        } else {
            0
        }
    }
}

/// The sum of squared deviations from `mean` over successful samples.
pub open spec fn samples_sqdev_sum(ss: Seq<Sample>, mean: int) -> int
    decreases ss.len(),
{
    if ss.len() == 0 {
        0
    } else {
        samples_sqdev_sum(ss.drop_last(), mean) + if ss.last().success {
            (ss.last().value_milli - mean) * (ss.last().value_milli - mean)
        } else {
            0
        }
    }
}

/// Attempts an outcome contributes to kind `k`: each sample of a
/// completed run is one attempt; a failed probe is one failed attempt.
pub open spec fn outcome_attempts(o: OutcomeView, k: ProbeKind) -> nat {
    match o {
        OutcomeView::Completed { kind, samples } => if kind == k {
            samples.len()
        } else {
            0
        },
        OutcomeView::Failed { kind, .. } => if kind == k {
            1nat
        } else {
            0
        },
    }
}

/// Failed attempts an outcome contributes to kind `k`.
pub open spec fn outcome_failures(o: OutcomeView, k: ProbeKind) -> nat {
    match o {
        OutcomeView::Completed { kind, samples } => if kind == k {
            samples_failures(samples)
        } else {
            0
        },
        OutcomeView::Failed { kind, .. } => if kind == k {
            1nat
        } else {
            0
        },
    }
}

/// Successful-sample value sum an outcome contributes to kind `k`.
pub open spec fn outcome_success_sum(o: OutcomeView, k: ProbeKind) -> int {
    match o {
        OutcomeView::Completed { kind, samples } => if kind == k {
            samples_success_sum(samples)
        } else {
            0
        },
        OutcomeView::Failed { .. } => 0,
    }
}

/// Squared-deviation sum an outcome contributes to kind `k`.
pub open spec fn outcome_sqdev_sum(o: OutcomeView, k: ProbeKind, mean: int) -> int {
    match o {
        OutcomeView::Completed { kind, samples } => if kind == k {
            samples_sqdev_sum(samples, mean)
        } else {
            0
        },
        OutcomeView::Failed { .. } => 0,
    }
}

/// Total attempts of kind `k` over a run's outcomes.
pub open spec fn attempts_of(outs: Seq<OutcomeView>, k: ProbeKind) -> nat
    decreases outs.len(),
{
    if outs.len() == 0 {
        0
    } else {
        attempts_of(outs.drop_last(), k) + outcome_attempts(outs.last(), k)
    }
}

/// Total failed attempts of kind `k`; a failed probe outcome counts here,
/// never vanishing silently.
pub open spec fn failures_of(outs: Seq<OutcomeView>, k: ProbeKind) -> nat
    decreases outs.len(),
{
    if outs.len() == 0 {
        0
    } else {
        failures_of(outs.drop_last(), k) + outcome_failures(outs.last(), k)
    }
}

/// Sum of successful sample values of kind `k`.
pub open spec fn success_sum_of(outs: Seq<OutcomeView>, k: ProbeKind) -> int
    decreases outs.len(),
{
    if outs.len() == 0 {
        0
    } else {
        success_sum_of(outs.drop_last(), k) + outcome_success_sum(outs.last(), k)
    }
}

/// Sum of squared deviations from `mean` over successful samples of kind `k`.
pub open spec fn sqdev_sum_of(outs: Seq<OutcomeView>, k: ProbeKind, mean: int) -> int
    decreases outs.len(),
{
    if outs.len() == 0 {
        0
    } else {
        sqdev_sum_of(outs.drop_last(), k, mean) + outcome_sqdev_sum(outs.last(), k, mean)
    }
}

/// Successful attempts of kind `k`.
pub open spec fn successes_of(outs: Seq<OutcomeView>, k: ProbeKind) -> int {
    attempts_of(outs, k) - failures_of(outs, k)
}

/// Whether the input holds any attempt of kind `k`; only such kinds get
/// a summary.
pub open spec fn kind_present(outs: Seq<OutcomeView>, k: ProbeKind) -> bool {
    attempts_of(outs, k) > 0
}

/// Every outcome of the run is well formed.
pub open spec fn all_wf(outs: Seq<OutcomeView>) -> bool {
    forall|i: int| 0 <= i < outs.len() ==> (#[trigger] outs[i]).wf()
}

/// The mean of the successful samples of kind `k`, flagged `Undefined`
/// when every attempt failed.
pub open spec fn spec_mean(outs: Seq<OutcomeView>, k: ProbeKind) -> MeanValue {
    if successes_of(outs, k) == 0 {
        MeanValue::Undefined
    } else {
        MeanValue::Defined((success_sum_of(outs, k) / successes_of(outs, k)) as u64)
    }
}

/// The jitter (standard deviation) of the successful samples of kind `k`:
/// the integer square root of the mean squared deviation.
pub open spec fn spec_jitter(outs: Seq<OutcomeView>, k: ProbeKind) -> nat {
    if successes_of(outs, k) == 0 {
        0
    } else {
        let mean = success_sum_of(outs, k) / successes_of(outs, k);
        spec_isqrt((sqdev_sum_of(outs, k, mean) / successes_of(outs, k)) as nat)
    }
}

/// The full summary the aggregator owes for kind `k`.
pub open spec fn spec_summary(outs: Seq<OutcomeView>, k: ProbeKind) -> MetricSummary {
    MetricSummary {
        kind: k,
        mean: spec_mean(outs, k),
        jitter_milli: spec_jitter(outs, k) as u64,
        failed: failures_of(outs, k) as u64,
        attempts: attempts_of(outs, k) as u64,
    }
}

/// The summary of kind `k` where the kind is present, and nothing
/// otherwise.
pub open spec fn spec_summary_opt(outs: Seq<OutcomeView>, k: ProbeKind) -> Seq<MetricSummary> {
    if kind_present(outs, k) {
        seq![spec_summary(outs, k)]
    } else {
        Seq::empty()
    }
}

/// All summaries of a run: one per kind present in the input, in the
/// fixed order latency, download, upload, DNS, connectivity.
pub open spec fn spec_summaries(outs: Seq<OutcomeView>) -> Seq<MetricSummary> {
    spec_summary_opt(outs, ProbeKind::Latency) + spec_summary_opt(outs, ProbeKind::ThroughputDown)
        + spec_summary_opt(outs, ProbeKind::ThroughputUp) + spec_summary_opt(outs, ProbeKind::Dns)
        + spec_summary_opt(outs, ProbeKind::Connectivity)
}

/// A sample run never counts more failures than samples.
pub proof fn lemma_samples_failures_le(ss: Seq<Sample>)
    ensures
        samples_failures(ss) <= ss.len(),
    decreases ss.len(),
{
    if ss.len() > 0 {
        lemma_samples_failures_le(ss.drop_last());
    }
}

/// Law: for every outcome set, the failed attempts of a kind never
/// exceed its total attempts, so the loss ratio `failed / attempts`
/// lies in [0, 1].
pub proof fn lemma_loss_ratio_in_range(outs: Seq<OutcomeView>, k: ProbeKind)
    ensures
        failures_of(outs, k) <= attempts_of(outs, k),
    decreases outs.len(),
{
    if outs.len() > 0 {
        lemma_loss_ratio_in_range(outs.drop_last(), k);
        match outs.last() {
            OutcomeView::Completed { kind, samples } => {
                lemma_samples_failures_le(samples);
            },
            OutcomeView::Failed { .. } => {},
        }
    }
}

/// Law: when every attempt of a present kind failed, the summary's mean
/// is the explicit `Undefined` flag — never a silent zero — and its loss
/// ratio is exactly one (`failed == attempts`).
pub proof fn lemma_all_failed_mean_flagged(outs: Seq<OutcomeView>, k: ProbeKind)
    requires
        failures_of(outs, k) == attempts_of(outs, k),
    ensures
        spec_summary(outs, k).mean is Undefined,
        spec_summary(outs, k).failed == spec_summary(outs, k).attempts,
{
}

/// The success sum of well-formed samples is bounded by the number of
/// successful samples times the value bound.
pub proof fn lemma_samples_sum_bound(ss: Seq<Sample>)
    requires
        forall|i: int| 0 <= i < ss.len() ==> (#[trigger] ss[i]).value_milli <= VALUE_MAX,
    ensures
        0 <= samples_success_sum(ss),
        samples_success_sum(ss) <= (ss.len() - samples_failures(ss)) * (VALUE_MAX as int),
    decreases ss.len(),
{
    lemma_samples_failures_le(ss);
    if ss.len() > 0 {
        lemma_samples_sum_bound(ss.drop_last());
        lemma_samples_failures_le(ss.drop_last());
        let n = ss.len() - 1;
        let f = samples_failures(ss.drop_last()) as int;
        assert((n - f) * (VALUE_MAX as int) + (VALUE_MAX as int) == (n + 1 - f) * (
        VALUE_MAX as int)) by (nonlinear_arith);
        assert((n - f) * (VALUE_MAX as int) <= (n + 1 - (f + 1)) * (VALUE_MAX as int));
    }
}

/// The squared-deviation sum of well-formed samples is bounded by the
/// number of successful samples times the squared value bound.
pub proof fn lemma_samples_sqdev_bound(ss: Seq<Sample>, mean: int)
    requires
        forall|i: int| 0 <= i < ss.len() ==> (#[trigger] ss[i]).value_milli <= VALUE_MAX,
        0 <= mean <= VALUE_MAX as int,
    ensures
        0 <= samples_sqdev_sum(ss, mean),
        samples_sqdev_sum(ss, mean) <= (ss.len() - samples_failures(ss)) * ((VALUE_MAX as int) * (
        VALUE_MAX as int)),
    decreases ss.len(),
{
    lemma_samples_failures_le(ss);
    if ss.len() > 0 {
        lemma_samples_sqdev_bound(ss.drop_last(), mean);
        lemma_samples_failures_le(ss.drop_last());
        let n = ss.len() - 1;
        let f = samples_failures(ss.drop_last()) as int;
        let m2 = (VALUE_MAX as int) * (VALUE_MAX as int);
        if ss.last().success {
            let v = ss.last().value_milli as int;
            assert(0 <= (v - mean) * (v - mean) <= m2) by (nonlinear_arith)
                requires
                    0 <= v <= VALUE_MAX as int,
                    0 <= mean <= VALUE_MAX as int,
                    m2 == (VALUE_MAX as int) * (VALUE_MAX as int),
            ;
        }
        assert((n - f) * m2 + m2 == (n + 1 - f) * m2) by (nonlinear_arith);
    }
}

/// Seq-level bound: the success sum of kind `k` is bounded by its
/// successful attempts times the value bound.
pub proof fn lemma_sum_bound(outs: Seq<OutcomeView>, k: ProbeKind)
    requires
        all_wf(outs),
    ensures
        0 <= success_sum_of(outs, k),
        success_sum_of(outs, k) <= successes_of(outs, k) * (VALUE_MAX as int),
    decreases outs.len(),
{
    lemma_loss_ratio_in_range(outs, k);
    if outs.len() > 0 {
        assert(all_wf(outs.drop_last())) by {
            assert(forall|i: int|
                0 <= i < outs.len() - 1 ==> outs.drop_last()[i] == #[trigger] outs[i]);
        }
        lemma_sum_bound(outs.drop_last(), k);
        lemma_loss_ratio_in_range(outs.drop_last(), k);
        let s0 = successes_of(outs.drop_last(), k);
        let s1 = successes_of(outs, k);
        let m = VALUE_MAX as int;
        assert(outs.last().wf());
        match outs.last() {
            OutcomeView::Completed { kind, samples } => {
                if kind == k {
                    lemma_samples_sum_bound(samples);
                    lemma_samples_failures_le(samples);
                    let sl = samples.len() - samples_failures(samples);
                    assert(s1 == s0 + sl);
                    assert(s0 * m + sl * m == (s0 + sl) * m) by (nonlinear_arith);
                } else {
                    assert(s1 == s0);
                }
            },
            OutcomeView::Failed { .. } => {
                assert(s1 == s0);
            },
        }
    }
}

/// Seq-level bound for the squared-deviation sum.
pub proof fn lemma_sqdev_bound(outs: Seq<OutcomeView>, k: ProbeKind, mean: int)
    requires
        all_wf(outs),
        0 <= mean <= VALUE_MAX as int,
    ensures
        0 <= sqdev_sum_of(outs, k, mean),
        sqdev_sum_of(outs, k, mean) <= successes_of(outs, k) * ((VALUE_MAX as int) * (
        VALUE_MAX as int)),
    decreases outs.len(),
{
    lemma_loss_ratio_in_range(outs, k);
    if outs.len() > 0 {
        assert(all_wf(outs.drop_last())) by {
            assert(forall|i: int|
                0 <= i < outs.len() - 1 ==> outs.drop_last()[i] == #[trigger] outs[i]);
        }
        lemma_sqdev_bound(outs.drop_last(), k, mean);
        lemma_loss_ratio_in_range(outs.drop_last(), k);
        let s0 = successes_of(outs.drop_last(), k);
        let s1 = successes_of(outs, k);
        let m2 = (VALUE_MAX as int) * (VALUE_MAX as int);
        assert(outs.last().wf());
        match outs.last() {
            OutcomeView::Completed { kind, samples } => {
                if kind == k {
                    lemma_samples_sqdev_bound(samples, mean);
                    lemma_samples_failures_le(samples);
                    let sl = samples.len() - samples_failures(samples);
                    assert(s1 == s0 + sl);
                    assert(s0 * m2 + sl * m2 == (s0 + sl) * m2) by (nonlinear_arith);
                } else {
                    assert(s1 == s0);
                }
            },
            OutcomeView::Failed { .. } => {
                assert(s1 == s0);
            },
        }
    }
}

/// Extending a prefix by one outcome extends every per-kind measure by
/// that outcome's contribution.
proof fn lemma_take_step(outs: Seq<OutcomeView>, i: int, k: ProbeKind, mean: int)
    requires
        0 <= i < outs.len(),
    ensures
        attempts_of(outs.take(i + 1), k) == attempts_of(outs.take(i), k) + outcome_attempts(
            outs[i],
            k,
        ),
        failures_of(outs.take(i + 1), k) == failures_of(outs.take(i), k) + outcome_failures(
            outs[i],
            k,
        ),
        success_sum_of(outs.take(i + 1), k) == success_sum_of(outs.take(i), k)
            + outcome_success_sum(outs[i], k),
        sqdev_sum_of(outs.take(i + 1), k, mean) == sqdev_sum_of(outs.take(i), k, mean)
            + outcome_sqdev_sum(outs[i], k, mean),
{
    assert(outs.take(i + 1).drop_last() =~= outs.take(i));
    assert(outs.take(i + 1).last() == outs[i]);
}

/// A prefix never counts more attempts of a kind than the whole run.
proof fn lemma_attempts_prefix_le(outs: Seq<OutcomeView>, i: int, k: ProbeKind)
    requires
        0 <= i <= outs.len(),
    ensures
        attempts_of(outs.take(i), k) <= attempts_of(outs, k),
    decreases outs.len() - i,
{
    if i == outs.len() {
        assert(outs.take(i) =~= outs);
    } else {
        lemma_take_step(outs, i, k, 0);
        lemma_attempts_prefix_le(outs, i + 1, k);
    }
}

/// Extending a sample prefix by one sample extends each sample measure
/// by that sample's contribution.
proof fn lemma_sample_take_step(ss: Seq<Sample>, i: int, mean: int)
    requires
        0 <= i < ss.len(),
    ensures
        samples_failures(ss.take(i + 1)) == samples_failures(ss.take(i)) + if ss[i].success {
            0nat
        } else {
            1nat
        },
        samples_success_sum(ss.take(i + 1)) == samples_success_sum(ss.take(i)) + if ss[i].success {
            ss[i].value_milli as int
        } else {
            0
        },
        samples_sqdev_sum(ss.take(i + 1), mean) == samples_sqdev_sum(ss.take(i), mean)
            + if ss[i].success {
            (ss[i].value_milli - mean) * (ss[i].value_milli - mean)
        } else {
            0
        },
{
    assert(ss.take(i + 1).drop_last() =~= ss.take(i));
    assert(ss.take(i + 1).last() == ss[i]);
}

/// Counts failures and sums successful values over one sample run.
fn scan_samples(samples: &Vec<Sample>) -> (r: (u64, u128))
    requires
        forall|i: int| 0 <= i < samples@.len() ==> (#[trigger] samples@[i]).wf(),
        samples@.len() <= MAX_KIND_ATTEMPTS,
    ensures
        r.0 == samples_failures(samples@),
        r.1 == samples_success_sum(samples@),
{
    let mut fails: u64 = 0;
    let mut sum: u128 = 0;
    let mut i: usize = 0;
    while i < samples.len()
        invariant
            i <= samples@.len(),
            samples@.len() <= MAX_KIND_ATTEMPTS,
            forall|j: int| 0 <= j < samples@.len() ==> (#[trigger] samples@[j]).wf(),
            fails == samples_failures(samples@.take(i as int)),
            sum == samples_success_sum(samples@.take(i as int)),
            fails <= i,
        decreases samples@.len() - i,
    {
        proof {
            lemma_sample_take_step(samples@, i as int, 0);
            lemma_samples_sum_bound(samples@.take(i as int));
            lemma_samples_failures_le(samples@.take(i as int));
        }
        let s = samples[i];
        if s.success {
            sum = sum + (s.value_milli as u128);
        } else {
            fails = fails + 1;
        }
        i = i + 1;
    }
    proof {
        assert(samples@.take(samples@.len() as int) =~= samples@);
    }
    (fails, sum)
}

/// Sums squared deviations from `mean` over one sample run.
fn scan_samples_sqdev(samples: &Vec<Sample>, mean: u64) -> (r: u128)
    requires
        forall|i: int| 0 <= i < samples@.len() ==> (#[trigger] samples@[i]).wf(),
        samples@.len() <= MAX_KIND_ATTEMPTS,
        mean <= VALUE_MAX,
    ensures
        r == samples_sqdev_sum(samples@, mean as int),
{
    let mut sq: u128 = 0;
    let mut i: usize = 0;
    while i < samples.len()
        invariant
            i <= samples@.len(),
            samples@.len() <= MAX_KIND_ATTEMPTS,
            mean <= VALUE_MAX,
            forall|j: int| 0 <= j < samples@.len() ==> (#[trigger] samples@[j]).wf(),
            sq == samples_sqdev_sum(samples@.take(i as int), mean as int),
        decreases samples@.len() - i,
    {
        proof {
            lemma_sample_take_step(samples@, i as int, mean as int);
            lemma_samples_sqdev_bound(samples@.take(i as int), mean as int);
            lemma_samples_failures_le(samples@.take(i as int));
        }
        let s = samples[i];
        if s.success {
            let d: u64 = if s.value_milli >= mean {
                s.value_milli - mean
            } else {
                mean - s.value_milli
            };
            proof {
                assert((d as int) * (d as int) == (s.value_milli - mean as int) * (s.value_milli
                    - mean as int) && (d as int) * (d as int) <= (VALUE_MAX as int) * (
                VALUE_MAX as int)) by (nonlinear_arith)
                    requires
                        d <= VALUE_MAX,
                        (d as int == s.value_milli - mean as int || d as int == mean as int
                            - s.value_milli),
                ;
            }
            sq = sq + (d as u128) * (d as u128);
        }
        i = i + 1;
    }
    proof {
        assert(samples@.take(samples@.len() as int) =~= samples@);
    }
    sq
}

/// Reduces a run's outcomes to the summary of kind `k`, or nothing when
/// the input holds no attempt of that kind.
pub fn summarize_kind(outcomes: &Vec<ProbeOutcome>, k: ProbeKind) -> (r: Option<MetricSummary>)
    requires
        all_wf(outcomes_view(outcomes@)),
        attempts_of(outcomes_view(outcomes@), k) <= MAX_KIND_ATTEMPTS,
    ensures
        r == if kind_present(outcomes_view(outcomes@), k) {
            Some(spec_summary(outcomes_view(outcomes@), k))
        } else {
            Option::<MetricSummary>::None
        },
{
    let ghost ov = outcomes_view(outcomes@);
    proof {
        lemma_loss_ratio_in_range(ov, k);
    }
    let mut attempts: u64 = 0;
    let mut fails: u64 = 0;
    let mut sum: u128 = 0;
    let mut i: usize = 0;
    while i < outcomes.len()
        invariant
            ov == outcomes_view(outcomes@),
            ov.len() == outcomes@.len(),
            i <= outcomes@.len(),
            all_wf(ov),
            attempts_of(ov, k) <= MAX_KIND_ATTEMPTS,
            attempts == attempts_of(ov.take(i as int), k),
            fails == failures_of(ov.take(i as int), k),
            sum == success_sum_of(ov.take(i as int), k),
        decreases outcomes@.len() - i,
    {
        proof {
            lemma_take_step(ov, i as int, k, 0);
            lemma_attempts_prefix_le(ov, i as int + 1, k);
            lemma_loss_ratio_in_range(ov.take(i as int + 1), k);
            assert(all_wf(ov.take(i as int + 1))) by {
                assert(forall|j: int|
                    0 <= j < i as int + 1 ==> ov.take(i as int + 1)[j] == #[trigger] ov[j]);
            }
            lemma_sum_bound(ov.take(i as int + 1), k);
            assert(ov[i as int] == outcomes@[i as int]@);
        }
        match &outcomes[i] {
            ProbeOutcome::Completed { kind, samples } => {
                if *kind == k {
                    let (f, s) = scan_samples(samples);
                    attempts = attempts + samples.len() as u64;
                    fails = fails + f;
                    sum = sum + s;
                }
            },
            ProbeOutcome::Failed { kind, .. } => {
                if *kind == k {
                    attempts = attempts + 1;
                    fails = fails + 1;
                }
            },
        }
        i = i + 1;
    }
    proof {
        assert(ov.take(ov.len() as int) =~= ov);
    }
    if attempts == 0 {
        return None;
    }
    proof {
        lemma_sum_bound(ov, k);
    }
    let succ: u64 = attempts - fails;
    if succ == 0 {
        return Some(
            MetricSummary {
                kind: k,
                mean: MeanValue::Undefined,
                jitter_milli: 0,
                failed: fails,
                attempts,
            },
        );
    }
    let mean128: u128 = sum / (succ as u128);
    proof {
        vstd::arithmetic::div_mod::lemma_multiply_divide_le(
            sum as int,
            succ as int,
            VALUE_MAX as int,
        );
    }
    let mean: u64 = mean128 as u64;
    let mut sq: u128 = 0;
    let mut i2: usize = 0;
    while i2 < outcomes.len()
        invariant
            ov == outcomes_view(outcomes@),
            ov.len() == outcomes@.len(),
            i2 <= outcomes@.len(),
            all_wf(ov),
            attempts_of(ov, k) <= MAX_KIND_ATTEMPTS,
            mean <= VALUE_MAX,
            sq == sqdev_sum_of(ov.take(i2 as int), k, mean as int),
        decreases outcomes@.len() - i2,
    {
        proof {
            lemma_take_step(ov, i2 as int, k, mean as int);
            lemma_attempts_prefix_le(ov, i2 as int + 1, k);
            lemma_loss_ratio_in_range(ov.take(i2 as int + 1), k);
            assert(all_wf(ov.take(i2 as int + 1))) by {
                assert(forall|j: int|
                    0 <= j < i2 as int + 1 ==> ov.take(i2 as int + 1)[j] == #[trigger] ov[j]);
            }
            lemma_sqdev_bound(ov.take(i2 as int + 1), k, mean as int);
            assert(ov[i2 as int] == outcomes@[i2 as int]@);
        }
        match &outcomes[i2] {
            ProbeOutcome::Completed { kind, samples } => {
                if *kind == k {
                    let s = scan_samples_sqdev(samples, mean);
                    sq = sq + s;
                }
            },
            ProbeOutcome::Failed { .. } => {},
        }
        i2 = i2 + 1;
    }
    proof {
        assert(ov.take(ov.len() as int) =~= ov);
        lemma_sqdev_bound(ov, k, mean as int);
    }
    let variance: u128 = sq / (succ as u128);
    proof {
        vstd::arithmetic::div_mod::lemma_multiply_divide_le(
            sq as int,
            succ as int,
            (VALUE_MAX as int) * (VALUE_MAX as int),
        );
    }
    let j = isqrt_u128(variance);
    proof {
        assert(j <= 0x1_0000_0000_0000u128) by (nonlinear_arith)
            requires
                (j as int) * (j as int) <= variance as int,
                variance as int <= (VALUE_MAX as int) * (VALUE_MAX as int),
                VALUE_MAX == 0x1_0000_0000_0000u64,
        ;
    }
    Some(
        MetricSummary {
            kind: k,
            mean: MeanValue::Defined(mean),
            jitter_milli: j as u64,
            failed: fails,
            attempts,
        },
    )
}

/// Reduces a run's outcomes to one summary per probe kind present, in
/// the fixed order latency, download, upload, DNS, connectivity.
pub fn summarize(outcomes: &Vec<ProbeOutcome>) -> (r: Vec<MetricSummary>)
    requires
        all_wf(outcomes_view(outcomes@)),
        forall|k: ProbeKind|
            #[trigger] attempts_of(outcomes_view(outcomes@), k) <= MAX_KIND_ATTEMPTS,
    ensures
        r@ == spec_summaries(outcomes_view(outcomes@)),
        forall|i: int| 0 <= i < r@.len() ==> (#[trigger] r@[i]).wf(),
{
    let ghost ov = outcomes_view(outcomes@);
    let mut r: Vec<MetricSummary> = Vec::new();
    if let Some(s) = summarize_kind(outcomes, ProbeKind::Latency) {
        proof {
            lemma_loss_ratio_in_range(ov, ProbeKind::Latency);
        }
        r.push(s);
    }
    if let Some(s) = summarize_kind(outcomes, ProbeKind::ThroughputDown) {
        proof {
            lemma_loss_ratio_in_range(ov, ProbeKind::ThroughputDown);
        }
        r.push(s);
    }
    if let Some(s) = summarize_kind(outcomes, ProbeKind::ThroughputUp) {
        proof {
            lemma_loss_ratio_in_range(ov, ProbeKind::ThroughputUp);
        }
        r.push(s);
    }
    if let Some(s) = summarize_kind(outcomes, ProbeKind::Dns) {
        proof {
            lemma_loss_ratio_in_range(ov, ProbeKind::Dns);
        }
        r.push(s);
    }
    if let Some(s) = summarize_kind(outcomes, ProbeKind::Connectivity) {
        proof {
            lemma_loss_ratio_in_range(ov, ProbeKind::Connectivity);
        }
        r.push(s);
    }
    proof {
        assert(r@ =~= spec_summaries(ov));
    }
    r
}

} // verus!
