//! The report: the immutable terminal artifact of a diagnostic run.

use vstd::prelude::*;
use crate::aggregate::{MAX_KIND_ATTEMPTS, MetricSummary, all_wf, attempts_of, spec_summaries,
    summarize};
use crate::analyze::{Issue, NetworkDiagnostics, issues_view, spec_issues, spec_recommendations,
    strings_view};
use crate::model::{ProbeOutcome, outcomes_view};

verus! {

/// Snapshot of one run: target identity, the per-kind summaries, the
/// detected issues with their recommendations, and the run's duration.
/// Created once per run and read-only afterwards.
pub struct Report {
    pub target_host: String,
    /// One summary per probe kind present, in fixed kind order.
    pub metrics: Vec<MetricSummary>,
    /// Issues derived from `metrics` alone.
    pub issues: Vec<Issue>,
    /// One recommendation per issue, or the single normal message.
    pub recommendations: Vec<String>,
    /// Wall-clock duration of the run, in milliseconds.
    pub duration_ms: u64,
}

impl Report {
    /// The report's issue and recommendation lists are derived purely
    /// from its own metric list — no hidden state influences them.
    pub open spec fn consistent(self) -> bool {
        &&& issues_view(self.issues@) == spec_issues(self.metrics@)
        &&& strings_view(self.recommendations@) == spec_recommendations(
            spec_issues(self.metrics@),
        )
    }
}

/// Builds the report for a finished run: aggregates the outcomes,
/// analyzes the summaries, and freezes the result.
pub fn build_report(target_host: String, outcomes: &Vec<ProbeOutcome>, duration_ms: u64) -> (r:
    Report)
    requires
        all_wf(outcomes_view(outcomes@)),
        forall|k: crate::model::ProbeKind|
            #[trigger] attempts_of(outcomes_view(outcomes@), k) <= MAX_KIND_ATTEMPTS,
    ensures
        r.target_host@ == target_host@,
        r.duration_ms == duration_ms,
        r.metrics@ == spec_summaries(outcomes_view(outcomes@)),
        r.consistent(),
{
    let metrics = summarize(outcomes);
    let diag = NetworkDiagnostics::new();
    let (issues, recommendations) = diag.analyze(&metrics);
    Report { target_host, metrics, issues, recommendations, duration_ms }
}

} // verus!
