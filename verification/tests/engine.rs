use netmeter::model::{validate_target, FailureReason, ProbeKind, ProbeOutcome, Sample};
use netmeter::numeric::isqrt_u128;
use netmeter::report::build_report;
use netmeter::speed::{throughput_value, SpeedTestResult, SpeedTester};

#[test]
fn target_validation() {
    assert!(validate_target("example.com"));
    assert!(validate_target("8.8.8.8"));
    assert!(validate_target("http://speedtest.ftp.otenet.gr/files/test10Mb.db"));
    assert!(!validate_target(""));
    assert!(!validate_target("has space"));
    assert!(!validate_target("tab\there"));
    let long = "a".repeat(253);
    assert!(validate_target(&long));
    let too_long = "a".repeat(254);
    assert!(!validate_target(&too_long));
}

#[test]
fn speed_tester_server_choice() {
    let default_tester = SpeedTester::new(None);
    assert_eq!(
        default_tester.server_url(),
        "http://speedtest.ftp.otenet.gr/files/test10Mb.db"
    );
    let custom = SpeedTester::new(Some("http://example.com/file".to_string()));
    assert_eq!(custom.server_url(), "http://example.com/file");
}

#[test]
fn throughput_from_bytes_and_elapsed() {
    // 1 MB in one second is 8 Mbps: 8_000_000 bits/s, in thousandths.
    assert_eq!(throughput_value(1_000_000, 1000), Some(8_000_000_000));
    // Half the time doubles the rate.
    assert_eq!(throughput_value(1_000_000, 500), Some(16_000_000_000));
    // An instantaneous transfer yields no rate.
    assert_eq!(throughput_value(1_000_000, 0), None);
    // A rate past the sample bound is refused, not clamped.
    assert_eq!(throughput_value(u64::MAX, 1), None);
}

#[test]
fn speed_test_result_holds_measurements() {
    let r = SpeedTestResult::new(85_000_000_000, 23_000_000_000, 25500, 1900);
    assert_eq!(r.download_milli_mbps, 85_000_000_000);
    assert_eq!(r.upload_milli_mbps, 23_000_000_000);
    assert_eq!(r.ping_milli_ms, 25500);
    assert_eq!(r.duration_ms, 1900);
}

#[test]
fn isqrt_exact_values() {
    assert_eq!(isqrt_u128(0), 0);
    assert_eq!(isqrt_u128(1), 1);
    assert_eq!(isqrt_u128(15), 3);
    assert_eq!(isqrt_u128(16), 4);
    assert_eq!(isqrt_u128(66_666_666), 8164);
    assert_eq!(isqrt_u128(u128::from(u64::MAX)), 4294967295);
}

#[test]
fn report_derives_issues_from_its_own_metrics() {
    let outcomes = vec![
        ProbeOutcome::Completed {
            kind: ProbeKind::Connectivity,
            samples: vec![Sample {
                kind: ProbeKind::Connectivity,
                timestamp_ms: 0,
                value_milli: 0,
                success: false,
            }],
        },
        ProbeOutcome::Failed {
            kind: ProbeKind::Connectivity,
            reason: FailureReason::ConnectionRefused,
        },
    ];
    let report = build_report("example.com".to_string(), &outcomes, 730);
    assert_eq!(report.target_host, "example.com");
    assert_eq!(report.duration_ms, 730);
    assert_eq!(report.metrics.len(), 1);
    assert_eq!(report.metrics[0].kind, ProbeKind::Connectivity);
    assert_eq!(report.metrics[0].failed, 2);
    assert_eq!(report.metrics[0].attempts, 2);
    assert_eq!(report.issues.len(), 1);
    assert_eq!(report.issues[0].detail, "no network connectivity detected");
    assert_eq!(
        report.recommendations,
        vec!["Check your network cable or WiFi connection".to_string()]
    );
}

#[test]
fn best_effort_report_on_partial_failure() {
    // A failing DNS kind degrades the report but does not abort it.
    let outcomes = vec![
        ProbeOutcome::Completed {
            kind: ProbeKind::Latency,
            samples: vec![Sample {
                kind: ProbeKind::Latency,
                timestamp_ms: 5,
                value_milli: 25500,
                success: true,
            }],
        },
        ProbeOutcome::Failed { kind: ProbeKind::Dns, reason: FailureReason::DnsFailure },
    ];
    let report = build_report("example.com".to_string(), &outcomes, 100);
    assert_eq!(report.metrics.len(), 2);
    assert_eq!(report.issues.len(), 1);
    assert_eq!(report.issues[0].detail, "dns resolution failing");
}
