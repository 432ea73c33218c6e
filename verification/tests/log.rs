use dstest::event::{CheckKind, ExperimentEvent};
use dstest::fault::{Fault, Tier};
use dstest::log::{BlastRadius, EventLog, Metrics};
use dstest::oracle::OracleReport;
use dstest::time::Duration;

#[test]
fn metrics_folds_events() {
    let events = [
        ExperimentEvent::ScenarioStarted,
        ExperimentEvent::StateEnumerated { unique: true },
        ExperimentEvent::StateEnumerated { unique: false },
        ExperimentEvent::FaultApplied { fault: Fault::Kill },
        ExperimentEvent::FaultApplied {
            fault: Fault::Pause,
        },
        ExperimentEvent::Recovery {
            took: Duration::from_millis(5),
            ok: true,
        },
        ExperimentEvent::Recovery {
            took: Duration::zero(),
            ok: false,
        },
    ];
    let m = Metrics::from_events(&events);
    assert_eq!(m.scenarios, 1);
    assert_eq!(m.unique_states, 1);
    assert_eq!(m.faults_injected, 2);
    assert_eq!(m.max_fault_depth, 2);
    assert_eq!(m.recoveries, 1);
    assert_eq!(m.failures, 1);
    assert_eq!(m.total_recovery_time, Duration::from_millis(5));
    assert_eq!(m.simulated_time, Duration::from_millis(5));
}

#[test]
fn blast_radius_tracks_affected_and_total() {
    let events = [
        ExperimentEvent::BlastAffected {
            class: "node",
            affected: 2,
            total: 5,
        },
        ExperimentEvent::BlastAffected {
            class: "service",
            affected: 1,
            total: 3,
        },
    ];
    let b = BlastRadius::from_events(&events);
    let ratio = |parts: Option<(u64, u64)>| parts.map(|(a, t)| a as f64 / t as f64);
    assert_eq!(b.nodes.affected, 2);
    assert_eq!(b.nodes.total, 5);
    assert_eq!(ratio(b.nodes.ratio_parts()), Some(0.4));
    assert_eq!(b.services.affected, 1);
    assert_eq!(ratio(b.requests.ratio_parts()), None);
}

#[test]
fn blast_radius_keeps_the_largest_and_ignores_unknown_classes() {
    let events = [
        ExperimentEvent::BlastAffected { class: "client", affected: 3, total: 4 },
        ExperimentEvent::BlastAffected { class: "client", affected: 1, total: 9 },
        ExperimentEvent::BlastAffected { class: "galaxy", affected: 7, total: 7 },
    ];
    let b = BlastRadius::from_events(&events);
    assert_eq!((b.clients.affected, b.clients.total), (3, 9));
    assert_eq!((b.nodes.affected, b.nodes.total), (0, 0));
    assert_eq!(b.nodes.ratio_parts(), None);
}

#[test]
fn event_log_pushes_and_exposes_metrics() {
    let mut log = EventLog::new();
    log.push(ExperimentEvent::ScenarioStarted)
        .push(ExperimentEvent::CheckRun {
            kind: CheckKind::Invariant,
            name: "i1".into(),
            passed: true,
            error: None,
            fault: None,
            subject: None,
            round: None,
        });
    assert_eq!(log.events().len(), 2);
    assert_eq!(log.metrics().scenarios, 1);
}

#[test]
fn event_log_metrics_match_a_fold_of_its_events() {
    let mut log = EventLog::new();
    log.push(ExperimentEvent::FaultApplied { fault: Fault::Deprive(Tier::Cpu) })
        .push(ExperimentEvent::FaultApplied { fault: Fault::Kill })
        .push(ExperimentEvent::FaultCleared)
        .push(ExperimentEvent::Recovery { took: Duration::from_secs(2), ok: true })
        .push(ExperimentEvent::InterleavingEnumerated { unique: true })
        .push(ExperimentEvent::BlastAffected { class: "request", affected: 10, total: 40 });
    let folded = Metrics::from_events(log.events());
    let m = log.metrics();
    assert_eq!(m.faults_injected, folded.faults_injected);
    assert_eq!(m.faults_injected, 2);
    assert_eq!(m.max_fault_depth, 2);
    assert_eq!(m.classes_seen, 2);
    assert_eq!(m.unique_interleavings, 1);
    assert_eq!(m.total_recovery_time, Duration::from_secs(2));
    assert_eq!(log.blast().requests.affected, 10);
    assert_eq!(log.len(), 6);
}

#[test]
fn oracle_report_counts_checks_and_failures() {
    let events = vec![
        ExperimentEvent::CheckRun {
            kind: CheckKind::Predicate,
            name: "up".into(),
            passed: true,
            error: None,
            fault: Some("kill".into()),
            subject: Some("docker/a".into()),
            round: Some(1),
        },
        ExperimentEvent::ScenarioStarted,
        ExperimentEvent::CheckRun {
            kind: CheckKind::Invariant,
            name: "consistent".into(),
            passed: false,
            error: Some("diverged".into()),
            fault: None,
            subject: None,
            round: None,
        },
    ];
    let r = OracleReport::from_events(&events);
    assert!(!r.passed);
    assert_eq!((r.total_checks, r.passed_checks, r.failed_checks), (3 - 1, 1, 1));
    assert_eq!(r.failures.len(), 1);
    assert_eq!(r.failures[0].check_type, "invariant");
    assert_eq!(r.failures[0].name, "consistent");
    assert_eq!(r.failures[0].error, "diverged");
    let empty = OracleReport::from_events(&[]);
    assert!(empty.passed);
    assert_eq!(empty.total_checks, 0);
}

#[test]
fn fault_depth_saturates_and_classes_are_counted() {
    let events = [
        ExperimentEvent::FaultCleared,
        ExperimentEvent::FaultApplied { fault: Fault::Pause },
        ExperimentEvent::FaultApplied { fault: Fault::Pause },
        ExperimentEvent::FaultCleared,
        ExperimentEvent::FaultCleared,
        ExperimentEvent::FaultCleared,
        ExperimentEvent::FaultApplied { fault: Fault::Deprive(Tier::Cpu) },
    ];
    let m = Metrics::from_events(&events);
    assert_eq!(m.max_fault_depth, 2);
    assert_eq!(m.faults_injected, 3);
    assert_eq!(m.classes_seen, 2);
    let m = Metrics::from_events(&events[..2]);
    assert_eq!(m.max_fault_depth, 1);
}
