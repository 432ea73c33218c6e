use dstest::config::Config;
use dstest::event::ExperimentEvent;
use dstest::fault::Fault;
use dstest::oracle::OracleReport;
use dstest::state::AppState;
use dstest::subject::{HostedSubject, SubjectStatus};
use dstest::usecases::{
    begin_setup, begin_step, check_outcome, finish_setup, has_active_faults, record_fault_applied,
    register_config, resolve_subject_http, resolve_subject_tcp, run_exit_code, CheckReturn,
    DependencyStep, DependencyWait, DEP_WAIT_ATTEMPTS, DEP_WAIT_INTERVAL_MS,
};

fn docker_config(seed: Option<u64>) -> Config {
    Config { substrate: Some("docker".to_string()), seed, ..Default::default() }
}

fn hosted(state: &mut AppState, handle: &str, instance: &str, addr: Option<&str>) -> String {
    let name = begin_setup(state, handle, "docker").unwrap();
    finish_setup(
        state,
        handle.to_string(),
        name,
        "docker",
        HostedSubject { id: instance.to_string(), addr: addr.map(|a| a.to_string()) },
    )
}

#[test]
fn configs_get_unique_generated_handles() {
    let mut state = AppState::new();
    let a = register_config(&mut state, None, docker_config(Some(1))).unwrap();
    let b = register_config(&mut state, None, docker_config(Some(2))).unwrap();
    assert_eq!(a, "config_1");
    assert_eq!(b, "config_2");
    let named = register_config(&mut state, Some("config_3".to_string()), docker_config(None)).unwrap();
    assert_eq!(named, "config_3");
    let c = register_config(&mut state, None, docker_config(None)).unwrap();
    assert_eq!(c, "config_4");
    assert_eq!(
        register_config(&mut state, Some("config_1".to_string()), docker_config(None)).unwrap_err(),
        "config 'config_1' already exists"
    );
    assert_eq!(state.log.metrics().scenarios, 0);
    assert_eq!(state.log.events().len(), 4);
}

#[test]
fn setup_names_and_records_subjects() {
    let mut state = AppState::new();
    let h = register_config(&mut state, Some("web".to_string()), docker_config(Some(9))).unwrap();
    let id = hosted(&mut state, &h, "abc123", Some("localhost:4000"));
    assert_eq!(id, "docker/abc123");
    let rec = state.subjects.find("docker/abc123").unwrap();
    assert_eq!(rec.name, "dstest-web-1");
    assert_eq!(rec.config, "web");
    assert_eq!(state.subjects.host_for("docker/abc123"), Some("localhost:4000"));
    assert!(begin_setup(&mut state, "nope", "docker").is_err());
    assert!(begin_setup(&mut state, "web", "podman").unwrap_err().starts_with("substrate mismatch"));
}

#[test]
fn steps_need_a_seed_and_subjects() {
    let mut state = AppState::new();
    let seedless = register_config(&mut state, Some("a".to_string()), docker_config(None)).unwrap();
    assert_eq!(
        begin_step(&mut state, Some(seedless)).err().unwrap(),
        "config 'a' has no seed: set seed = n in dstest.config()"
    );
    let seeded = register_config(&mut state, Some("b".to_string()), docker_config(Some(4))).unwrap();
    assert!(begin_step(&mut state, Some(seeded.clone())).err().unwrap().starts_with("no subjects for config 'b'"));
    let id = hosted(&mut state, &seeded, "x1", None);
    let (handle, cfg) = begin_step(&mut state, Some(seeded.clone())).unwrap();
    assert_eq!(handle, "b");
    assert_eq!(cfg.seed, Some(4));
    let step = state.fault_trees.step(&handle, Fault::Kill).unwrap();
    assert_eq!(step.subject_id, id);
    record_fault_applied(&mut state, &handle, &id, Fault::Kill);
    assert!(has_active_faults(&state, &id));
    assert_eq!(state.log.metrics().faults_injected, 1);
    assert!(state
        .log
        .events()
        .iter()
        .any(|e| matches!(e, ExperimentEvent::FaultApplied { fault: Fault::Kill })));
}

#[test]
fn http_and_tcp_targets() {
    let mut state = AppState::new();
    let h = register_config(&mut state, Some("svc".to_string()), docker_config(Some(1))).unwrap();
    let with_addr = hosted(&mut state, &h, "a1", Some("localhost:49153"));
    let without = hosted(&mut state, &h, "b2", None);
    let t = resolve_subject_http(&state, &with_addr).unwrap();
    assert_eq!((t.host.as_str(), t.timeout_secs, t.retries, t.retry_delay_ms), ("localhost:49153", 5, 30, 500));
    assert_eq!(
        resolve_subject_http(&state, &without).err().unwrap(),
        "subject docker/b2 has no address"
    );
    assert_eq!(
        resolve_subject_tcp(&state, &with_addr, 6379).unwrap(),
        ("localhost:6379".to_string(), 5)
    );
    assert_eq!(
        resolve_subject_tcp(&state, "docker/zz", 1).unwrap_err(),
        "unknown subject docker/zz (or no address)"
    );
}

#[test]
fn dependency_wait_gives_up() {
    let mut w = DependencyWait::new("docker/db".to_string());
    assert!(matches!(w.observe(Ok(SubjectStatus::Pending)), DependencyStep::Wait));
    assert!(matches!(w.observe(Ok(SubjectStatus::Running)), DependencyStep::Ready));
    let mut w = DependencyWait::new("docker/db".to_string());
    assert!(matches!(w.observe(Ok(SubjectStatus::Terminated)), DependencyStep::Fail(_)));
}

#[test]
fn exit_codes_and_check_outcomes() {
    assert_eq!(run_exit_code(&OracleReport::from_events(&[])), 0);
    let failing = OracleReport::from_events(&[ExperimentEvent::CheckRun {
        kind: dstest::event::CheckKind::Predicate,
        name: "p".to_string(),
        passed: false,
        error: None,
        fault: None,
        subject: None,
        round: None,
    }]);
    assert_eq!(run_exit_code(&failing), 2);
    assert_eq!(check_outcome("predicate", CheckReturn::Flag(true)), Ok((true, None)));
    assert_eq!(
        check_outcome("invariant", CheckReturn::Table(false, Some("bad".to_string()))),
        Ok((false, Some("bad".to_string())))
    );
    assert_eq!(
        check_outcome("predicate", CheckReturn::Other("number".to_string())).unwrap_err(),
        "predicate must return boolean or {passed, message?}, got \"number\""
    );
}

#[test]
fn dependency_wait_lasts_thirty_seconds() {
    assert_eq!(DEP_WAIT_ATTEMPTS, 60);
    assert_eq!(DEP_WAIT_ATTEMPTS * DEP_WAIT_INTERVAL_MS, 30_000);
    let mut w = DependencyWait::new("docker/db".to_string());
    let mut checks = 0;
    while w.should_check() {
        assert!(matches!(w.observe(Ok(SubjectStatus::Pending)), DependencyStep::Wait));
        checks += 1;
    }
    assert_eq!(checks, 60);
    assert_eq!(w.timeout_error(), "dependency docker/db not ready after 30s");
}

#[test]
fn fault_tree_is_taken_out_and_put_back_in_place() {
    let mut state = AppState::new();
    let a = register_config(&mut state, Some("a".to_string()), docker_config(Some(3))).unwrap();
    let b = register_config(&mut state, Some("b".to_string()), docker_config(Some(3))).unwrap();
    hosted(&mut state, &a, "x1", None);
    hosted(&mut state, &b, "y1", None);
    begin_step(&mut state, Some(a.clone())).unwrap();
    begin_step(&mut state, Some(b.clone())).unwrap();
    let (at, tree) = state.fault_trees.take_tree(&a).unwrap();
    assert_eq!(at, 0);
    assert!(!state.fault_trees.contains(&a));
    assert!(state.fault_trees.take_tree(&a).is_none());
    state.fault_trees.put_tree(a.clone(), tree, at);
    assert!(state.fault_trees.contains(&a));
    let (at_again, _) = state.fault_trees.take_tree(&a).unwrap();
    assert_eq!(at_again, 0);
}

#[test]
fn schedule_stops_after_its_steps_and_keeps_its_subjects() {
    let mut state = AppState::new();
    let cfg = Config { steps: 3, ..docker_config(Some(9)) };
    let h = register_config(&mut state, Some("s".to_string()), cfg).unwrap();
    let first = hosted(&mut state, &h, "p1", None);
    begin_step(&mut state, Some(h.clone())).unwrap();
    // A subject hosted after the schedule was made is never drawn.
    hosted(&mut state, &h, "p2", None);
    for round in 1..=3 {
        begin_step(&mut state, Some(h.clone())).unwrap();
        let s = state.fault_trees.step(&h, Fault::Pause).unwrap();
        assert_eq!(s.subject_id, first);
        assert_eq!(s.round, round);
        assert_eq!(s.more, round < 3);
    }
    assert!(state.fault_trees.step(&h, Fault::Pause).is_none());
    assert!(state.fault_trees.step(&h, Fault::Pause).is_none());
}

#[test]
fn same_seed_same_subject_draws() {
    let subjects: Vec<String> = (0..10).map(|i| format!("docker/s{}", i)).collect();
    let cfg = Config { steps: 20, ..Config::default() };
    let mut a = dstest::fault::FaultTree::new(77, subjects.clone(), &cfg);
    let mut b = dstest::fault::FaultTree::new(77, subjects, &cfg);
    for _ in 0..20 {
        assert_eq!(a.step(Fault::Kill).unwrap().subject_id, b.step(Fault::Kill).unwrap().subject_id);
    }
}

#[test]
fn a_fault_is_stamped_with_the_given_time() {
    let mut state = AppState::new();
    let h = register_config(&mut state, Some("t".to_string()), docker_config(Some(1))).unwrap();
    let id = hosted(&mut state, &h, "m1", None);
    assert!(state.subjects.faulted_at(&id).is_none());
    let at = std::time::Instant::now();
    state.subjects.mark_faulted_at(&id, at);
    assert_eq!(state.subjects.faulted_at(&id), Some(at));
    state.subjects.mark_faulted_at("docker/none", at);
    assert!(state.subjects.faulted_at("docker/none").is_none());
}

#[test]
fn subject_names_never_repeat() {
    let mut state = AppState::new();
    assert_eq!(state.subjects.next_name("config_1"), "dstest-config_1-1");
    assert_eq!(state.subjects.next_name("a b"), "dstest-a-b-2");
    let mut seen = std::collections::HashSet::new();
    for h in ["x", "x-1", "x", "x-1-"] {
        assert!(seen.insert(state.subjects.next_name(h)));
    }
}
