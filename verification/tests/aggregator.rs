use netmeter::aggregate::{MeanValue, summarize, summarize_kind};
use netmeter::model::{FailureReason, ProbeKind, ProbeOutcome, Sample};

fn ok_sample(kind: ProbeKind, value_milli: u64) -> Sample {
    Sample { kind, timestamp_ms: 0, value_milli, success: true }
}

fn bad_sample(kind: ProbeKind) -> Sample {
    Sample { kind, timestamp_ms: 0, value_milli: 0, success: false }
}

#[test]
fn mean_and_jitter_exact() {
    // Latency samples 10 ms, 20 ms, 30 ms: mean 20 ms, variance
    // (100 + 0 + 100) / 3 in whole-ms units, so jitter is
    // isqrt(66666666) = 8164 thousandths of a ms.
    let outcomes = vec![ProbeOutcome::Completed {
        kind: ProbeKind::Latency,
        samples: vec![
            ok_sample(ProbeKind::Latency, 10000),
            ok_sample(ProbeKind::Latency, 20000),
            ok_sample(ProbeKind::Latency, 30000),
        ],
    }];
    let s = summarize_kind(&outcomes, ProbeKind::Latency).unwrap();
    assert_eq!(s.mean, MeanValue::Defined(20000));
    assert_eq!(s.jitter_milli, 8164);
    assert_eq!(s.failed, 0);
    assert_eq!(s.attempts, 3);
}

#[test]
fn loss_ratio_counts_failed_probes_and_samples() {
    // One completed run with one failed sample, plus one failed probe:
    // 3 attempts, 2 failed, loss ratio 2/3 — within [0, 1].
    let outcomes = vec![
        ProbeOutcome::Completed {
            kind: ProbeKind::Latency,
            samples: vec![
                ok_sample(ProbeKind::Latency, 15000),
                bad_sample(ProbeKind::Latency),
            ],
        },
        ProbeOutcome::Failed { kind: ProbeKind::Latency, reason: FailureReason::Timeout },
    ];
    let s = summarize_kind(&outcomes, ProbeKind::Latency).unwrap();
    assert_eq!(s.attempts, 3);
    assert_eq!(s.failed, 2);
    assert!(s.failed <= s.attempts);
    assert_eq!(s.mean, MeanValue::Defined(15000));
}

#[test]
fn all_failed_kind_mean_is_flagged() {
    // Every DNS attempt failed: the mean is the explicit Undefined flag,
    // not zero, and the loss ratio is exactly one.
    let outcomes = vec![
        ProbeOutcome::Failed { kind: ProbeKind::Dns, reason: FailureReason::DnsFailure },
        ProbeOutcome::Completed {
            kind: ProbeKind::Dns,
            samples: vec![bad_sample(ProbeKind::Dns)],
        },
    ];
    let s = summarize_kind(&outcomes, ProbeKind::Dns).unwrap();
    assert_eq!(s.mean, MeanValue::Undefined);
    assert_eq!(s.failed, s.attempts);
    assert_eq!(s.attempts, 2);
    assert_eq!(s.jitter_milli, 0);
}

#[test]
fn absent_kind_gets_no_summary() {
    let outcomes = vec![ProbeOutcome::Completed {
        kind: ProbeKind::Latency,
        samples: vec![ok_sample(ProbeKind::Latency, 10000)],
    }];
    assert!(summarize_kind(&outcomes, ProbeKind::Connectivity).is_none());
    assert!(summarize_kind(&Vec::new(), ProbeKind::Latency).is_none());
}

#[test]
fn summaries_grouped_in_kind_order() {
    let outcomes = vec![
        ProbeOutcome::Completed {
            kind: ProbeKind::Connectivity,
            samples: vec![ok_sample(ProbeKind::Connectivity, 1000)],
        },
        ProbeOutcome::Completed {
            kind: ProbeKind::Latency,
            samples: vec![ok_sample(ProbeKind::Latency, 20000)],
        },
        ProbeOutcome::Failed { kind: ProbeKind::Dns, reason: FailureReason::Timeout },
    ];
    let summaries = summarize(&outcomes);
    assert_eq!(summaries.len(), 3);
    assert_eq!(summaries[0].kind, ProbeKind::Latency);
    assert_eq!(summaries[1].kind, ProbeKind::Dns);
    assert_eq!(summaries[2].kind, ProbeKind::Connectivity);
}

#[test]
fn cancelled_probe_counts_toward_loss() {
    let outcomes = vec![
        ProbeOutcome::Completed {
            kind: ProbeKind::Connectivity,
            samples: vec![ok_sample(ProbeKind::Connectivity, 500)],
        },
        ProbeOutcome::Failed {
            kind: ProbeKind::Connectivity,
            reason: FailureReason::Cancelled,
        },
    ];
    let s = summarize_kind(&outcomes, ProbeKind::Connectivity).unwrap();
    assert_eq!(s.attempts, 2);
    assert_eq!(s.failed, 1);
}
