//! The analyzer: applies the fixed threshold table to metric summaries
//! and produces the issue list with matching recommendations.
//!
//! The analyzer is a pure function of the summaries it is handed: every
//! result is pinned to a spec-level function of the input alone, so the
//! same summaries always yield the same issues and recommendations.

use vstd::prelude::*;
use vstd::string::StringExecFns;
use crate::aggregate::{MeanValue, MetricSummary};
use crate::model::ProbeKind;
use crate::text::{hundredths_string, milli_string, spec_hundredths_chars, spec_milli_chars,
    spec_round_div};

verus! {

/// Latency mean above this many thousandths of a millisecond (100 ms)
/// counts as high latency.
pub const HIGH_LATENCY_MILLI: u64 = 100000;

/// Packet loss above one part in this many attempts (0.5%) counts as
/// packet loss.
pub const PACKET_LOSS_RECIPROCAL: u64 = 200;

/// The category of a detected anomaly.
#[derive(Clone, Copy, Debug, PartialEq, Eq, Structural)]
pub enum IssueKind {
    Connectivity,
    Dns,
    Latency,
    PacketLoss,
}

/// How severe an issue is: `Critical` blocks normal use of the network,
/// `Warning` degrades it.
#[derive(Clone, Copy, Debug, PartialEq, Eq, Structural)]
pub enum Severity {
    Warning,
    Critical,
}

/// A detected anomaly: category, severity and a free-text detail line.
#[derive(Debug)]
pub struct Issue {
    pub kind: IssueKind,
    pub severity: Severity,
    pub detail: String,
}

/// The mathematical value of an issue.
pub struct IssueView {
    pub kind: IssueKind,
    pub severity: Severity,
    pub detail: Seq<char>,
}

impl View for Issue {
    type V = IssueView;

    open spec fn view(&self) -> IssueView {
        IssueView { kind: self.kind, severity: self.severity, detail: self.detail@ }
    }
}

/// The values of a sequence of issues.
pub open spec fn issues_view(s: Seq<Issue>) -> Seq<IssueView> {
    s.map_values(|x: Issue| x@)
}

/// The values of a sequence of strings.
pub open spec fn strings_view(s: Seq<String>) -> Seq<Seq<char>> {
    s.map_values(|x: String| x@)
}

/// The first summary of kind `k`, if one is present.
pub open spec fn find_kind(ss: Seq<MetricSummary>, k: ProbeKind) -> Option<MetricSummary>
    decreases ss.len(),
{
    if ss.len() == 0 {
        None
    } else if ss.first().kind == k {
        Some(ss.first())
    } else {
        find_kind(ss.drop_first(), k)
    }
}

/// Threshold rule: the connectivity kind was probed and every attempt
/// failed (loss ratio exactly one).
pub open spec fn spec_connectivity_down(ss: Seq<MetricSummary>) -> bool {
    match find_kind(ss, ProbeKind::Connectivity) {
        Some(s) => s.attempts > 0 && s.failed == s.attempts,
        None => false,
    }
}

/// Threshold rule: any DNS attempt failed (loss ratio above zero).
pub open spec fn spec_dns_failing(ss: Seq<MetricSummary>) -> bool {
    match find_kind(ss, ProbeKind::Dns) {
        Some(s) => s.failed > 0,
        None => false,
    }
}

/// Threshold rule: the latency mean exceeds the high-latency bound.
pub open spec fn spec_high_latency(ss: Seq<MetricSummary>) -> bool {
    match find_kind(ss, ProbeKind::Latency) {
        Some(s) => match s.mean {
            MeanValue::Defined(m) => m > HIGH_LATENCY_MILLI,
            MeanValue::Undefined => false,
        },
        None => false,
    }
}

/// Threshold rule: the loss ratio of the latency (ping) attempts
/// exceeds one part in `PACKET_LOSS_RECIPROCAL`.
pub open spec fn spec_packet_loss_high(ss: Seq<MetricSummary>) -> bool {
    match find_kind(ss, ProbeKind::Latency) {
        Some(s) => s.failed * PACKET_LOSS_RECIPROCAL > s.attempts,
        None => false,
    }
}

/// The latency mean the high-latency detail line reports.
pub open spec fn spec_latency_mean(ss: Seq<MetricSummary>) -> int {
    match find_kind(ss, ProbeKind::Latency) {
        Some(s) => match s.mean {
            MeanValue::Defined(m) => m as int,
            MeanValue::Undefined => 0,
        },
        None => 0,
    }
}

/// The loss ratio, in hundredths of a percent, that the packet-loss
/// detail line reports.
pub open spec fn spec_loss_percent_hundredths(ss: Seq<MetricSummary>) -> int {
    match find_kind(ss, ProbeKind::Latency) {
        Some(s) => spec_round_div(s.failed * 10000, s.attempts as int),
        None => 0,
    }
}

/// Detail line for a run with no connectivity.
pub open spec fn connectivity_issue_chars() -> Seq<char> {
    "no network connectivity detected"@
}

/// Detail line for failing DNS resolution.
pub open spec fn dns_issue_chars() -> Seq<char> {
    "dns resolution failing"@
}

/// Detail line for a high latency mean, quoting the mean.
pub open spec fn latency_issue_chars(mean: int) -> Seq<char> {
    "high latency detected: "@ + spec_milli_chars(mean) + "ms"@
}

/// Detail line for packet loss, quoting the loss percentage.
pub open spec fn loss_issue_chars(percent_hundredths: int) -> Seq<char> {
    "packet loss detected: "@ + spec_hundredths_chars(percent_hundredths) + "%"@
}

/// All issues the threshold table yields for these summaries, in the
/// fixed order connectivity, DNS, latency, packet loss.
pub open spec fn spec_issues(ss: Seq<MetricSummary>) -> Seq<IssueView> {
    (if spec_connectivity_down(ss) {
        seq![
            IssueView {
                kind: IssueKind::Connectivity,
                severity: Severity::Critical,
                detail: connectivity_issue_chars(),
            },
        ]
    } else {
        Seq::empty()
    }) + (if spec_dns_failing(ss) {
        seq![
            IssueView {
                kind: IssueKind::Dns,
                severity: Severity::Critical,
                detail: dns_issue_chars(),
            },
        ]
    } else {
        Seq::empty()
    }) + (if spec_high_latency(ss) {
        seq![
            IssueView {
                kind: IssueKind::Latency,
                severity: Severity::Warning,
                detail: latency_issue_chars(spec_latency_mean(ss)),
            },
        ]
    } else {
        Seq::empty()
    }) + (if spec_packet_loss_high(ss) {
        seq![
            IssueView {
                kind: IssueKind::PacketLoss,
                severity: Severity::Warning,
                detail: loss_issue_chars(spec_loss_percent_hundredths(ss)),
            },
        ]
    } else {
        Seq::empty()
    })
}

/// The advice that matches each issue category.
pub open spec fn spec_rec_for(k: IssueKind) -> Seq<char> {
    match k {
        IssueKind::Connectivity => "Check your network cable or WiFi connection"@,
        IssueKind::Dns => "Try changing your DNS servers to 8.8.8.8 or 1.1.1.1"@,
        IssueKind::Latency => "Try restarting your router or contacting your ISP"@,
        IssueKind::PacketLoss => "Check for WiFi interference or try using a wired connection"@,
    }
}

/// The message of a run with no detected issue.
pub open spec fn normal_chars() -> Seq<char> {
    "Your network appears to be functioning normally"@
}

/// The recommendations owed for an issue list: one entry per issue, in
/// issue order, or the single normal message when no issue was found.
pub open spec fn spec_recommendations(iss: Seq<IssueView>) -> Seq<Seq<char>> {
    if iss.len() == 0 {
        seq![normal_chars()]
    } else {
        iss.map_values(|i: IssueView| spec_rec_for(i.kind))
    }
}

/// Law: the issue list is empty exactly when no threshold rule fires,
/// and an empty issue list yields exactly one recommendation, the
/// normal-operation message; never an empty list.
pub proof fn lemma_quiet_run_normal(ss: Seq<MetricSummary>)
    ensures
        spec_issues(ss).len() == 0 <==> !(spec_connectivity_down(ss) || spec_dns_failing(ss)
            || spec_high_latency(ss) || spec_packet_loss_high(ss)),
        spec_issues(ss).len() == 0 ==> spec_recommendations(spec_issues(ss)) == seq![
            normal_chars(),
        ],
{
    if spec_issues(ss).len() == 0 {
        assert(spec_recommendations(spec_issues(ss)) =~= seq![normal_chars()]);
    }
}

/// The network diagnostics analyzer; it holds no state across calls.
#[derive(Clone, Copy, Debug, PartialEq, Eq, Structural)]
pub struct NetworkDiagnostics;

impl NetworkDiagnostics {
    /// Creates an analyzer.
    pub fn new() -> (r: NetworkDiagnostics)
        ensures
            r == NetworkDiagnostics,
    {
        NetworkDiagnostics
    }

    /// Applies the threshold table to the summaries and returns the
    /// detected issues, in the fixed category order.
    pub fn detect_issues(&self, summaries: &Vec<MetricSummary>) -> (r: Vec<Issue>)
        requires
            forall|i: int| 0 <= i < summaries@.len() ==> (#[trigger] summaries@[i]).wf(),
        ensures
            issues_view(r@) == spec_issues(summaries@),
    {
        let mut r: Vec<Issue> = Vec::new();
        if let Some(s) = find_summary(summaries, ProbeKind::Connectivity) {
            if s.attempts > 0 && s.failed == s.attempts {
                r.push(
                    Issue {
                        kind: IssueKind::Connectivity,
                        severity: Severity::Critical,
                        detail: "no network connectivity detected".to_owned(),
                    },
                );
            }
        }
        if let Some(s) = find_summary(summaries, ProbeKind::Dns) {
            if s.failed > 0 {
                r.push(
                    Issue {
                        kind: IssueKind::Dns,
                        severity: Severity::Critical,
                        detail: "dns resolution failing".to_owned(),
                    },
                );
            }
        }
        if let Some(s) = find_summary(summaries, ProbeKind::Latency) {
            proof {
                lemma_find_kind_wf(summaries@, ProbeKind::Latency);
            }
            if let MeanValue::Defined(m) = s.mean {
                if m > HIGH_LATENCY_MILLI {
                    let mut detail = "high latency detected: ".to_owned();
                    detail.append(milli_string(m).as_str());
                    detail.append("ms");
                    r.push(Issue { kind: IssueKind::Latency, severity: Severity::Warning, detail });
                }
            }
            let over: bool = {
                let lhs: u128 = (s.failed as u128) * (PACKET_LOSS_RECIPROCAL as u128);
                lhs > s.attempts as u128
            };
            if over {
                let p: u128 = ((s.failed as u128) * 10000 + (s.attempts as u128) / 2) / (
                s.attempts as u128);
                let mut detail = "packet loss detected: ".to_owned();
                detail.append(hundredths_string(p).as_str());
                detail.append("%");
                r.push(
                    Issue { kind: IssueKind::PacketLoss, severity: Severity::Warning, detail },
                );
            }
        }
        proof {
            assert(issues_view(r@) =~= spec_issues(summaries@));
        }
        r
    }

    /// Produces one recommendation per issue, in issue order, or the
    /// single normal-operation message for an empty issue list.
    pub fn generate_recommendations(&self, issues: &Vec<Issue>) -> (r: Vec<String>)
        ensures
            strings_view(r@) == spec_recommendations(issues_view(issues@)),
    {
        let mut r: Vec<String> = Vec::new();
        if issues.len() == 0 {
            r.push("Your network appears to be functioning normally".to_owned());
            proof {
                assert(strings_view(r@) =~= spec_recommendations(issues_view(issues@)));
            }
            return r;
        }
        let mut i: usize = 0;
        while i < issues.len()
            invariant
                i <= issues@.len(),
                r@.len() == i,
                forall|j: int|
                    0 <= j < i ==> (#[trigger] r@[j])@ == spec_rec_for(issues@[j]@.kind),
            decreases issues@.len() - i,
        {
            let rec: &'static str = match issues[i].kind {
                IssueKind::Connectivity => "Check your network cable or WiFi connection",
                IssueKind::Dns => "Try changing your DNS servers to 8.8.8.8 or 1.1.1.1",
                IssueKind::Latency => "Try restarting your router or contacting your ISP",
                IssueKind::PacketLoss => "Check for WiFi interference or try using a wired connection",
            };
            r.push(rec.to_owned());
            i = i + 1;
        }
        proof {
            assert(strings_view(r@) =~= spec_recommendations(issues_view(issues@)));
        }
        r
    }

    /// Runs the full analysis: issues plus matching recommendations.
    /// Both are functions of the summaries alone.
    pub fn analyze(&self, summaries: &Vec<MetricSummary>) -> (r: (Vec<Issue>, Vec<String>))
        requires
            forall|i: int| 0 <= i < summaries@.len() ==> (#[trigger] summaries@[i]).wf(),
        ensures
            issues_view(r.0@) == spec_issues(summaries@),
            strings_view(r.1@) == spec_recommendations(spec_issues(summaries@)),
    {
        let issues = self.detect_issues(summaries);
        let recs = self.generate_recommendations(&issues);
        (issues, recs)
    }
}

impl Default for NetworkDiagnostics {
    /// The default analyzer, identical to a fresh one.
    fn default() -> (r: Self)
        ensures
            r == NetworkDiagnostics,
    {
        NetworkDiagnostics::new()
    }
}

/// Whether the run as a whole failed: the kind the command requires was
/// never attempted, or every one of its attempts failed. Any other
/// degradation still yields a best-effort report.
pub open spec fn spec_run_failed(ss: Seq<MetricSummary>, required: ProbeKind) -> bool {
    match find_kind(ss, required) {
        Some(s) => s.failed == s.attempts,
        None => true,
    }
}

/// Decides the run verdict for the kind the command requires.
pub fn run_failed(summaries: &Vec<MetricSummary>, required: ProbeKind) -> (r: bool)
    ensures
        r == spec_run_failed(summaries@, required),
{
    match find_summary(summaries, required) {
        Some(s) => s.failed == s.attempts,
        None => true,
    }
}

/// A found summary satisfies the well-formedness of the list it came
/// from.
proof fn lemma_find_kind_wf(ss: Seq<MetricSummary>, k: ProbeKind)
    requires
        forall|i: int| 0 <= i < ss.len() ==> (#[trigger] ss[i]).wf(),
    ensures
        match find_kind(ss, k) {
            Some(s) => s.wf(),
            None => true,
        },
    decreases ss.len(),
{
    if ss.len() > 0 && ss.first().kind != k {
        assert(forall|i: int|
            0 <= i < ss.drop_first().len() ==> ss.drop_first()[i] == #[trigger] ss[i + 1]);
        lemma_find_kind_wf(ss.drop_first(), k);
    }
}

/// Finds the first summary of kind `k`.
pub fn find_summary(summaries: &Vec<MetricSummary>, k: ProbeKind) -> (r: Option<MetricSummary>)
    ensures
        r == find_kind(summaries@, k),
{
    let mut i: usize = 0;
    proof {
        assert(summaries@.skip(0) =~= summaries@);
    }
    while i < summaries.len()
        invariant
            i <= summaries@.len(),
            find_kind(summaries@, k) == find_kind(summaries@.skip(i as int), k),
            summaries@.skip(i as int).len() == summaries@.len() - i,
        decreases summaries@.len() - i,
    {
        proof {
            assert(summaries@.skip(i as int).first() == summaries@[i as int]);
            assert(summaries@.skip(i as int).drop_first() =~= summaries@.skip(i as int + 1));
        }
        if summaries[i].kind == k {
            return Some(summaries[i]);
        }
        i = i + 1;
    }
    None
}

} // verus!
