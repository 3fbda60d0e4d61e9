use netmeter::aggregate::{MeanValue, MetricSummary};
use netmeter::analyze::{run_failed, IssueKind, NetworkDiagnostics, Severity};
use netmeter::model::ProbeKind;

fn summary(kind: ProbeKind, mean: MeanValue, jitter: u64, failed: u64, attempts: u64) -> MetricSummary {
    MetricSummary { kind, mean, jitter_milli: jitter, failed, attempts }
}

#[test]
fn scenario_high_latency() {
    // latency: mean 150 ms, jitter 5, loss 0, 10 samples
    let summaries = vec![summary(
        ProbeKind::Latency,
        MeanValue::Defined(150000),
        5000,
        0,
        10,
    )];
    let diag = NetworkDiagnostics::new();
    let (issues, recs) = diag.analyze(&summaries);
    assert_eq!(issues.len(), 1);
    assert_eq!(issues[0].detail, "high latency detected: 150.00ms");
    assert!(matches!(issues[0].kind, IssueKind::Latency));
    assert_eq!(recs, vec!["Try restarting your router or contacting your ISP".to_string()]);
}

#[test]
fn scenario_no_connectivity() {
    // connectivity: loss 1.0 over 5 attempts
    let summaries = vec![summary(ProbeKind::Connectivity, MeanValue::Undefined, 0, 5, 5)];
    let diag = NetworkDiagnostics::new();
    let (issues, recs) = diag.analyze(&summaries);
    assert_eq!(issues.len(), 1);
    assert_eq!(issues[0].detail, "no network connectivity detected");
    assert!(matches!(issues[0].kind, IssueKind::Connectivity));
    assert!(matches!(issues[0].severity, Severity::Critical));
    assert_eq!(recs, vec!["Check your network cable or WiFi connection".to_string()]);
}

#[test]
fn quiet_run_yields_single_normal_recommendation() {
    let summaries = vec![
        summary(ProbeKind::Latency, MeanValue::Defined(25500), 1200, 0, 10),
        summary(ProbeKind::Dns, MeanValue::Defined(12000), 500, 0, 4),
        summary(ProbeKind::Connectivity, MeanValue::Defined(1000), 0, 0, 3),
    ];
    let diag = NetworkDiagnostics::new();
    let (issues, recs) = diag.analyze(&summaries);
    assert!(issues.is_empty());
    assert_eq!(recs.len(), 1);
    assert_eq!(recs[0], "Your network appears to be functioning normally");
}

#[test]
fn dns_failure_detected() {
    let summaries = vec![summary(ProbeKind::Dns, MeanValue::Defined(9000), 0, 1, 4)];
    let diag = NetworkDiagnostics::new();
    let (issues, recs) = diag.analyze(&summaries);
    assert_eq!(issues.len(), 1);
    assert_eq!(issues[0].detail, "dns resolution failing");
    assert!(matches!(issues[0].kind, IssueKind::Dns));
    assert_eq!(
        recs,
        vec!["Try changing your DNS servers to 8.8.8.8 or 1.1.1.1".to_string()]
    );
}

#[test]
fn packet_loss_detected_with_percentage() {
    // 1 failed ping of 100: 1.0% loss, above the 0.5% threshold.
    let summaries = vec![summary(ProbeKind::Latency, MeanValue::Defined(20000), 0, 1, 100)];
    let diag = NetworkDiagnostics::new();
    let (issues, recs) = diag.analyze(&summaries);
    assert_eq!(issues.len(), 1);
    assert_eq!(issues[0].detail, "packet loss detected: 1.00%");
    assert!(matches!(issues[0].kind, IssueKind::PacketLoss));
    assert_eq!(
        recs,
        vec!["Check for WiFi interference or try using a wired connection".to_string()]
    );
}

#[test]
fn packet_loss_at_half_percent_not_flagged() {
    // Exactly 0.5% loss does not cross the strict threshold.
    let summaries = vec![summary(ProbeKind::Latency, MeanValue::Defined(20000), 0, 1, 200)];
    let diag = NetworkDiagnostics::new();
    let (issues, _) = diag.analyze(&summaries);
    assert!(issues.is_empty());
}

#[test]
fn analyzer_is_pure() {
    // Same summaries in, same issues and recommendations out, however
    // often and in whatever order the analyzer is called.
    let a = vec![summary(ProbeKind::Latency, MeanValue::Defined(150000), 0, 0, 10)];
    let b = vec![summary(ProbeKind::Connectivity, MeanValue::Undefined, 0, 5, 5)];
    let diag = NetworkDiagnostics::new();
    let (ia1, ra1) = diag.analyze(&a);
    let (ib1, rb1) = diag.analyze(&b);
    let (ib2, rb2) = diag.analyze(&b);
    let (ia2, ra2) = diag.analyze(&a);
    assert_eq!(ra1, ra2);
    assert_eq!(rb1, rb2);
    assert_eq!(ia1.len(), ia2.len());
    assert_eq!(ib1.len(), ib2.len());
    for (x, y) in ia1.iter().zip(ia2.iter()) {
        assert_eq!(x.detail, y.detail);
    }
    for (x, y) in ib1.iter().zip(ib2.iter()) {
        assert_eq!(x.detail, y.detail);
    }
}

#[test]
fn run_verdict_requires_the_required_kind() {
    let healthy = vec![summary(ProbeKind::Connectivity, MeanValue::Defined(1000), 0, 1, 3)];
    assert!(!run_failed(&healthy, ProbeKind::Connectivity));
    // The required kind was never probed: the run fails.
    assert!(run_failed(&healthy, ProbeKind::Dns));
    // Every required attempt failed: the run fails.
    let dead = vec![summary(ProbeKind::Connectivity, MeanValue::Undefined, 0, 3, 3)];
    assert!(run_failed(&dead, ProbeKind::Connectivity));
    // A degraded but not fully failed kind keeps the run alive.
    let degraded = vec![summary(ProbeKind::Connectivity, MeanValue::Defined(900), 0, 2, 3)];
    assert!(!run_failed(&degraded, ProbeKind::Connectivity));
}

#[test]
fn multiple_issues_in_category_order() {
    let summaries = vec![
        summary(ProbeKind::Latency, MeanValue::Defined(250000), 0, 10, 100),
        summary(ProbeKind::Dns, MeanValue::Undefined, 0, 4, 4),
        summary(ProbeKind::Connectivity, MeanValue::Undefined, 0, 5, 5),
    ];
    let diag = NetworkDiagnostics::new();
    let (issues, recs) = diag.analyze(&summaries);
    assert_eq!(issues.len(), 4);
    assert!(matches!(issues[0].kind, IssueKind::Connectivity));
    assert!(matches!(issues[1].kind, IssueKind::Dns));
    assert!(matches!(issues[2].kind, IssueKind::Latency));
    assert!(matches!(issues[3].kind, IssueKind::PacketLoss));
    assert_eq!(recs.len(), 4);
}
