//! Data model: probe kinds, samples, probe specifications and outcomes.
//!
//! Numeric measurement values are fixed-point integers counting thousandths
//! of the metric's unit: thousandths of a millisecond for latency and DNS
//! timings, thousandths of a bit per second for throughput.

use vstd::prelude::*;
use vstd::string::StrSliceExecFns;

verus! {

/// Upper bound on a sample's fixed-point value (2^48 thousandths, i.e.
/// about 2.8e11 units), so that sums and squared deviations over large
/// sample sets fit in 128-bit accumulators.
pub const VALUE_MAX: u64 = 0x1_0000_0000_0000;

/// The kind of measurement a probe performs.
#[derive(Clone, Copy, Debug, PartialEq, Eq, Structural)]
pub enum ProbeKind {
    Latency,
    ThroughputDown,
    ThroughputUp,
    Dns,
    Connectivity,
}

/// Why a probe attempt failed. Every variant is recoverable at the
/// scheduling level: a failed attempt becomes part of the loss ratio
/// instead of aborting the run.
#[derive(Clone, Copy, Debug, PartialEq, Eq, Structural)]
pub enum FailureReason {
    Timeout,
    ConnectionRefused,
    DnsFailure,
    Cancelled,
}

/// One raw measurement, immutable once recorded.
#[derive(Clone, Copy, Debug, PartialEq, Eq, Structural)]
pub struct Sample {
    pub kind: ProbeKind,
    /// When the sample was taken, in milliseconds since the run began.
    pub timestamp_ms: u64,
    /// Measured value in thousandths of the kind's unit.
    pub value_milli: u64,
    /// Whether the attempt succeeded; failed attempts count toward loss.
    pub success: bool,
}

impl Sample {
    /// A sample is well formed when its value fits the fixed-point bound.
    pub open spec fn wf(self) -> bool {
        self.value_milli <= VALUE_MAX
    }
}

/// A character that may appear in a target host or URL: printable ASCII
/// with no whitespace.
pub open spec fn is_host_char(c: char) -> bool {
    0x21 <= c as u32 && c as u32 <= 0x7e
}

/// A well-formed target: non-empty, at most 253 characters, all of them
/// printable non-space ASCII.
pub open spec fn valid_target(s: Seq<char>) -> bool {
    &&& 1 <= s.len()
    &&& s.len() <= 253
    &&& forall|i: int| 0 <= i < s.len() ==> is_host_char(#[trigger] s[i])
}

/// Checks that a target host or URL is well formed; a malformed target is
/// rejected before any probe is scheduled.
pub fn validate_target(s: &str) -> (r: bool)
    ensures
        r == valid_target(s@),
{
    let n = s.unicode_len();
    if n < 1 || n > 253 {
        return false;
    }
    let mut i: usize = 0;
    while i < n
        invariant
            n == s@.len(),
            1 <= n <= 253,
            i <= n,
            forall|j: int| 0 <= j < i ==> is_host_char(#[trigger] s@[j]),
        decreases n - i,
    {
        let c = s.get_char(i);
        let v = c as u32;
        if v < 0x21 || v > 0x7e {
            return false;
        }
        i = i + 1;
    }
    true
}

/// Configuration for one probe run, supplied by the caller; immutable.
#[derive(Clone, Debug)]
pub struct ProbeSpec {
    /// Target host or URL the probe measures against.
    pub target: String,
    pub kind: ProbeKind,
    /// How many attempts the scheduler owes for this spec.
    pub repetitions: u32,
    /// Per-attempt timeout in milliseconds.
    pub timeout_ms: u64,
    /// Most attempts of this spec allowed in flight at once.
    pub concurrency: u32,
}

impl ProbeSpec {
    /// A probe spec is well formed when its target is valid and its
    /// concurrency limit allows at least one attempt in flight.
    pub open spec fn wf(self) -> bool {
        &&& valid_target(self.target@)
        &&& 1 <= self.concurrency
    }
}

/// The result of one probe attempt: either a completed, non-empty set of
/// samples, or a failure reason. Failures never vanish silently: they
/// count toward the loss ratio of their kind.
#[derive(Debug)]
pub enum ProbeOutcome {
    Completed { kind: ProbeKind, samples: Vec<Sample> },
    Failed { kind: ProbeKind, reason: FailureReason },
}

/// The mathematical value of a probe outcome; all contracts about
/// outcomes are stated over this shape.
pub enum OutcomeView {
    Completed { kind: ProbeKind, samples: Seq<Sample> },
    Failed { kind: ProbeKind, reason: FailureReason },
}

impl OutcomeView {
    /// The probe kind this outcome reports on.
    pub open spec fn kind(self) -> ProbeKind {
        match self {
            OutcomeView::Completed { kind, .. } => kind,
            OutcomeView::Failed { kind, .. } => kind,
        }
    }

    /// A completed outcome carries at least one sample, and every sample
    /// is well formed and tagged with the outcome's own kind.
    pub open spec fn wf(self) -> bool {
        match self {
            OutcomeView::Completed { kind, samples } => {
                &&& 1 <= samples.len()
                &&& forall|i: int|
                    0 <= i < samples.len() ==> (#[trigger] samples[i]).wf() && samples[i].kind
                        == kind
            },
            OutcomeView::Failed { .. } => true,
        }
    }
}

impl View for ProbeOutcome {
    type V = OutcomeView;

    open spec fn view(&self) -> OutcomeView {
        match self {
            ProbeOutcome::Completed { kind, samples } => OutcomeView::Completed {
                kind: *kind,
                samples: samples@,
            },
            ProbeOutcome::Failed { kind, reason } => OutcomeView::Failed {
                kind: *kind,
                reason: *reason,
            },
        }
    }
}

/// The values of a sequence of probe outcomes.
pub open spec fn outcomes_view(s: Seq<ProbeOutcome>) -> Seq<OutcomeView> {
    s.map_values(|o: ProbeOutcome| o@)
}

/// Appending an outcome appends its value to the sequence's view.
pub proof fn lemma_outcomes_view_push(s: Seq<ProbeOutcome>, o: ProbeOutcome)
    ensures
        outcomes_view(s.push(o)) == outcomes_view(s).push(o@),
{
    assert(outcomes_view(s.push(o)) =~= outcomes_view(s).push(o@));
}

impl ProbeOutcome {
    /// The probe kind this outcome reports on.
    pub fn kind(&self) -> (k: ProbeKind)
        ensures
            k == self@.kind(),
    {
        match self {
            ProbeOutcome::Completed { kind, .. } => *kind,
            ProbeOutcome::Failed { kind, .. } => *kind,
        }
    }
}

/// Copies a sample vector element by element.
pub fn copy_samples(v: &Vec<Sample>) -> (r: Vec<Sample>)
    ensures
        r@ == v@,
{
    let mut r: Vec<Sample> = Vec::new();
    let mut i: usize = 0;
    while i < v.len()
        invariant
            i <= v@.len(),
            r@ == v@.take(i as int),
        decreases v@.len() - i,
    {
        r.push(v[i]);
        proof {
            assert(r@ =~= v@.take(i + 1 as int));
        }
        i = i + 1;
    }
    proof {
        assert(v@.take(v@.len() as int) =~= v@);
    }
    r
}

/// Duplicates a probe outcome; the copy has the same mathematical value.
pub fn clone_outcome(o: &ProbeOutcome) -> (r: ProbeOutcome)
    ensures
        r@ == o@,
{
    match o {
        ProbeOutcome::Completed { kind, samples } => ProbeOutcome::Completed {
            kind: *kind,
            samples: copy_samples(samples),
        },
        ProbeOutcome::Failed { kind, reason } => ProbeOutcome::Failed {
            kind: *kind,
            reason: *reason,
        },
    }
}

} // verus!
