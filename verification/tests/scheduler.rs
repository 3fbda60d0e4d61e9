use netmeter::model::{FailureReason, ProbeKind, ProbeOutcome, ProbeSpec, Sample};
use netmeter::schedule::{Scheduler, SetupError};

fn spec(target: &str, kind: ProbeKind, repetitions: u32, concurrency: u32) -> ProbeSpec {
    ProbeSpec {
        target: target.to_string(),
        kind,
        repetitions,
        timeout_ms: 1000,
        concurrency,
    }
}

fn good_outcome(kind: ProbeKind, value_milli: u64) -> ProbeOutcome {
    ProbeOutcome::Completed {
        kind,
        samples: vec![Sample { kind, timestamp_ms: 0, value_milli, success: true }],
    }
}

#[test]
fn malformed_target_rejected_before_scheduling() {
    let r = Scheduler::new(vec![spec("", ProbeKind::Latency, 3, 2)]);
    assert!(matches!(r, Err(SetupError::InvalidTarget(0))));
    let r = Scheduler::new(vec![
        spec("example.com", ProbeKind::Latency, 3, 2),
        spec("has space", ProbeKind::Dns, 1, 1),
    ]);
    assert!(matches!(r, Err(SetupError::InvalidTarget(1))));
}

#[test]
fn concurrency_bound_never_exceeded() {
    // Instrumented run: count attempts in flight at every instant and
    // check the configured limit of 2 is never exceeded.
    let mut sched = Scheduler::new(vec![spec("example.com", ProbeKind::Latency, 5, 2)]).unwrap();
    let mut in_flight: Vec<usize> = Vec::new();
    let mut max_in_flight = 0usize;
    let mut completed = 0u32;
    while completed < 5 {
        while let Some(i) = sched.begin_next() {
            in_flight.push(i);
            max_in_flight = max_in_flight.max(in_flight.len());
        }
        // Complete one in-flight attempt, then try to start more.
        let i = in_flight.pop().expect("an attempt must be in flight");
        sched.record_outcome(i, good_outcome(ProbeKind::Latency, 20000));
        completed += 1;
    }
    assert!(max_in_flight <= 2);
    assert_eq!(max_in_flight, 2);
    let outcomes = sched.collect();
    assert_eq!(outcomes.len(), 5);
    assert!(outcomes.iter().all(|o| matches!(o, ProbeOutcome::Completed { .. })));
}

#[test]
fn cancellation_starts_nothing_and_resolves_everything() {
    let mut sched = Scheduler::new(vec![spec("example.com", ProbeKind::Latency, 5, 2)]).unwrap();
    // Two attempts go out, then the run is cancelled mid-flight.
    let a = sched.begin_next().expect("first attempt starts");
    let b = sched.begin_next().expect("second attempt starts");
    sched.cancel();
    assert!(sched.is_cancelled());
    // No new attempt starts after cancellation.
    assert!(sched.begin_next().is_none());
    // The in-flight attempts observe cancellation and report it.
    sched.record_outcome(
        a,
        ProbeOutcome::Failed { kind: ProbeKind::Latency, reason: FailureReason::Cancelled },
    );
    sched.record_outcome(
        b,
        ProbeOutcome::Failed { kind: ProbeKind::Latency, reason: FailureReason::Cancelled },
    );
    assert!(sched.begin_next().is_none());
    let outcomes = sched.collect();
    // Every owed attempt is accounted for, none left unresolved.
    assert_eq!(outcomes.len(), 5);
    for o in &outcomes {
        assert!(matches!(
            o,
            ProbeOutcome::Failed { kind: ProbeKind::Latency, reason: FailureReason::Cancelled }
        ));
    }
}

#[test]
fn outcomes_grouped_by_spec_in_caller_order() {
    let mut sched = Scheduler::new(vec![
        spec("example.com", ProbeKind::Latency, 2, 1),
        spec("example.org", ProbeKind::Dns, 1, 1),
    ])
    .unwrap();
    // Interleave completions: latency, dns, latency.
    let i = sched.begin_next().unwrap();
    assert_eq!(i, 0);
    sched.record_outcome(0, good_outcome(ProbeKind::Latency, 10000));
    let j = sched.begin_next().unwrap();
    assert_eq!(j, 0);
    sched.record_outcome(0, good_outcome(ProbeKind::Latency, 30000));
    let k = sched.begin_next().unwrap();
    assert_eq!(k, 1);
    sched.record_outcome(1, good_outcome(ProbeKind::Dns, 9000));
    assert!(sched.begin_next().is_none());
    assert!(sched.is_idle());
    let outcomes = sched.collect();
    assert_eq!(outcomes.len(), 3);
    assert!(matches!(&outcomes[0], ProbeOutcome::Completed { kind: ProbeKind::Latency, .. }));
    assert!(matches!(&outcomes[1], ProbeOutcome::Completed { kind: ProbeKind::Latency, .. }));
    assert!(matches!(&outcomes[2], ProbeOutcome::Completed { kind: ProbeKind::Dns, .. }));
}

#[test]
fn partial_failure_does_not_abort_the_batch() {
    let mut sched = Scheduler::new(vec![spec("example.com", ProbeKind::Dns, 3, 3)]).unwrap();
    for _ in 0..3 {
        sched.begin_next().unwrap();
    }
    sched.record_outcome(
        0,
        ProbeOutcome::Failed { kind: ProbeKind::Dns, reason: FailureReason::Timeout },
    );
    sched.record_outcome(0, good_outcome(ProbeKind::Dns, 9000));
    sched.record_outcome(
        0,
        ProbeOutcome::Failed { kind: ProbeKind::Dns, reason: FailureReason::ConnectionRefused },
    );
    let outcomes = sched.collect();
    assert_eq!(outcomes.len(), 3);
    let failures = outcomes
        .iter()
        .filter(|o| matches!(o, ProbeOutcome::Failed { .. }))
        .count();
    assert_eq!(failures, 2);
}
