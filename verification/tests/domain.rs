use dstest::config::{AccumulationMode, Config};
use dstest::fault::{Fault, FaultTree, StepResult, Tier};
use dstest::subject::Subject;

fn test_subjects() -> Vec<String> {
    vec![
        "docker/aaa".to_string(),
        "docker/bbb".to_string(),
        "docker/ccc".to_string(),
    ]
}

/// The weighted draw of a fault, as the engine makes it: a uniform draw in
/// [0, 1) scaled by the total weight and walked through the table.
fn select_fault(tree: &mut FaultTree) -> Fault {
    if let Some(f) = tree.fault_without_draw() {
        return f;
    }
    let weights: Vec<(Fault, f32)> = tree
        .weighted_faults()
        .iter()
        .map(|w| (w.fault, f32::from_bits(w.weight_bits)))
        .collect();
    let total: f32 = weights.iter().map(|w| w.1).sum();
    let r: f32 = rand::Rng::gen(tree.rng_mut());
    let mut r = r * total;
    for (fault, weight) in &weights {
        r -= weight;
        if r <= 0.0 {
            return *fault;
        }
    }
    weights.last().unwrap().0
}

fn next_step(tree: &mut FaultTree) -> Option<StepResult> {
    if !tree.has_next() {
        return None;
    }
    let fault = select_fault(tree);
    tree.step(fault)
}

#[test]
fn test_accumulation_mode_display() {
    assert_eq!(AccumulationMode::Single.to_string(), "single");
    assert_eq!(AccumulationMode::Accumulate.to_string(), "accumulate");
}

#[test]
fn test_accumulation_mode_from_str() {
    assert!(matches!(
        AccumulationMode::from_str("single"),
        Ok(AccumulationMode::Single)
    ));
    assert!(matches!(
        AccumulationMode::from_str("SINGLE"),
        Ok(AccumulationMode::Single)
    ));
    assert!(matches!(
        AccumulationMode::from_str("accumulate"),
        Ok(AccumulationMode::Accumulate)
    ));
    assert!(AccumulationMode::from_str("invalid").is_err());
}

#[test]
fn accumulation_mode_error_text() {
    assert_eq!(
        AccumulationMode::from_str("often").unwrap_err(),
        "invalid accumulation mode: often"
    );
}

#[test]
fn test_config_default() {
    let config = Config::default();
    let names: Vec<&str> = config.fault_weights.iter().map(|w| w.name.as_str()).collect();
    assert!(names.contains(&"pause"));
    assert!(names.contains(&"kill"));
    assert!(config.require_seed);
    assert_eq!(config.steps, 10);
}

#[test]
fn config_default_weights_are_sorted_and_exact() {
    let config = Config::default();
    let pairs: Vec<(String, f32)> = config
        .fault_weights
        .iter()
        .map(|w| (w.name.clone(), f32::from_bits(w.weight_bits)))
        .collect();
    assert_eq!(
        pairs,
        vec![
            ("deprive:cpu".to_string(), 0.1),
            ("deprive:disk".to_string(), 0.1),
            ("deprive:memory".to_string(), 0.1),
            ("deprive:network".to_string(), 0.1),
            ("kill".to_string(), 0.25),
            ("pause".to_string(), 0.35),
        ]
    );
}

#[test]
fn set_weight_replaces_and_keeps_order() {
    let mut config = Config::default();
    config.set_weight("kill".to_string(), 0.5f32.to_bits());
    config.set_weight("aardvark".to_string(), 1.0f32.to_bits());
    let names: Vec<&str> = config.fault_weights.iter().map(|w| w.name.as_str()).collect();
    assert_eq!(
        names,
        vec![
            "aardvark",
            "deprive:cpu",
            "deprive:disk",
            "deprive:memory",
            "deprive:network",
            "kill",
            "pause"
        ]
    );
    let kill = config.fault_weights.iter().find(|w| w.name == "kill").unwrap();
    assert_eq!(f32::from_bits(kill.weight_bits), 0.5);
}

#[test]
fn test_fault_display() {
    assert_eq!(Fault::Pause.to_string(), "pause");
    assert_eq!(Fault::Kill.to_string(), "kill");
    assert_eq!(Fault::Deprive(Tier::Disk).to_string(), "deprive:disk");
}

#[test]
fn test_fault_from_str() {
    assert!(matches!(Fault::from_str("pause"), Ok(Fault::Pause)));
    assert!(matches!(Fault::from_str("kill"), Ok(Fault::Kill)));
    assert!(matches!(
        Fault::from_str("deprive:network"),
        Ok(Fault::Deprive(Tier::Network))
    ));
}

#[test]
fn fault_names_read_back() {
    for f in [
        Fault::Pause,
        Fault::Kill,
        Fault::Deprive(Tier::Disk),
        Fault::Deprive(Tier::Network),
        Fault::Deprive(Tier::Memory),
        Fault::Deprive(Tier::Cpu),
    ] {
        assert_eq!(Fault::from_str(&f.to_string()), Ok(f));
    }
    assert_eq!(Fault::from_str("KILL"), Ok(Fault::Kill));
    assert!(Fault::from_str("deprive:gpu").is_err());
    assert!(Fault::from_str("explode").is_err());
}

#[test]
fn test_tier_from_str() {
    assert!(matches!(Tier::from_str("disk"), Ok(Tier::Disk)));
    assert!(matches!(Tier::from_str("network"), Ok(Tier::Network)));
    assert!(matches!(Tier::from_str("memory"), Ok(Tier::Memory)));
}

#[test]
fn tier_names_read_back() {
    for t in [Tier::Disk, Tier::Network, Tier::Memory, Tier::Cpu] {
        assert_eq!(Tier::from_str(&t.to_string()), Ok(t));
    }
    assert!(Tier::from_str("gpu").is_err());
}

#[test]
fn test_same_seed_same_schedule() {
    let config = Config::default();
    let mut a = FaultTree::new(42, test_subjects(), &config);
    let mut b = FaultTree::new(42, test_subjects(), &config);

    for _ in 0..20 {
        let sa = next_step(&mut a);
        let sb = next_step(&mut b);
        match (sa, sb) {
            (None, None) => break,
            (Some(x), Some(y)) => {
                assert_eq!(x.fault, y.fault);
                assert_eq!(x.subject_id, y.subject_id);
                assert_eq!(x.round, y.round);
            }
            _ => panic!("fault trees diverged"),
        }
    }
}

#[test]
fn test_different_seeds_differ() {
    let config = Config::default();
    let mut a = FaultTree::new(1, test_subjects(), &config);
    let mut b = FaultTree::new(2, test_subjects(), &config);

    let seq_a: Vec<_> = std::iter::from_fn(|| next_step(&mut a))
        .map(|s| (s.fault, s.subject_id))
        .collect();
    let seq_b: Vec<_> = std::iter::from_fn(|| next_step(&mut b))
        .map(|s| (s.fault, s.subject_id))
        .collect();
    assert_ne!(seq_a, seq_b);
}

#[test]
fn test_total_steps_from_config() {
    let config = Config {
        steps: 7,
        ..Default::default()
    };
    let mut tree = FaultTree::new(42, test_subjects(), &config);
    let count = std::iter::from_fn(|| next_step(&mut tree)).count();
    assert_eq!(count, 7);
}

#[test]
fn test_weighted_faults_sorted() {
    let mut config = Config::default();
    config.fault_weights.clear();
    config.set_weight("pause".to_string(), 0.5f32.to_bits());
    config.set_weight("kill".to_string(), 0.3f32.to_bits());
    config.set_weight("deprive:cpu".to_string(), 0.2f32.to_bits());

    let weighted = FaultTree::build_weighted_faults(&config.fault_weights);
    let names: Vec<String> = weighted.iter().map(|wf| wf.fault.to_string()).collect();
    assert_eq!(names, vec!["deprive:cpu", "kill", "pause"]);
}

#[test]
fn step_reports_rounds_and_stops() {
    let config = Config {
        steps: 2,
        ..Default::default()
    };
    let mut tree = FaultTree::new(7, test_subjects(), &config);
    let first = tree.step(Fault::Kill).unwrap();
    assert_eq!(first.fault, Fault::Kill);
    assert_eq!((first.round, first.total_rounds, first.remaining, first.more), (1, 2, 1, true));
    assert!(test_subjects().contains(&first.subject_id));
    let second = tree.step(Fault::Pause).unwrap();
    assert_eq!((second.round, second.remaining, second.more), (2, 0, false));
    assert!(tree.step(Fault::Pause).is_none());
    assert!(!tree.has_next());
}

#[test]
fn empty_weight_table_means_pause_without_a_draw() {
    let mut config = Config::default();
    config.fault_weights.clear();
    let tree = FaultTree::new(1, test_subjects(), &config);
    assert_eq!(tree.fault_without_draw(), Some(Fault::Pause));
    let tree = FaultTree::new(1, test_subjects(), &Config::default());
    assert_eq!(tree.fault_without_draw(), None);
}

#[test]
fn test_subject_new() {
    let subject = Subject::new("docker/abc123".to_string());
    assert_eq!(subject.id, "docker/abc123");
}

#[test]
fn test_subject_display() {
    let subject = Subject::new("docker/abc123".to_string());
    assert_eq!(subject.to_string(), "Subject { id: docker/abc123 }");
}

#[test]
fn weight_order_is_checked() {
    let mut config = Config::default();
    assert!(config.weights_are_sorted());
    config.set_weight("zebra".to_string(), 1.0f32.to_bits());
    assert!(config.weights_are_sorted());
    config.fault_weights.swap(0, 1);
    assert!(!config.weights_are_sorted());
}
