use fleet_control::rollout::{
    decode_strategy, encode_strategy, exponential_percentages, get_version_addr,
    indexed_container_name, linear_targets, percentage_target, plan_adjustment,
    validate_strategy, versioned_container_name, container_listed, plan_cleanup, AdjustAction, BlueGreenAction, BlueGreenPhase,
    BlueGreenRollout, LoadBalancer, RolloutError, RolloutLock, RolloutStrategy, StrategyType,
};

#[test]
fn strategy_codec_round_trips() {
    let strategies = vec![
        RolloutStrategy::BlueGreen { blue_green_field: true },
        RolloutStrategy::BlueGreen { blue_green_field: false },
        RolloutStrategy::Linear { steps: 4, interval_seconds: 30 },
        RolloutStrategy::Exponential { initial_percentage: 40, steps: 3, interval_seconds: 1 },
        RolloutStrategy::Linear { steps: i32::MAX, interval_seconds: -1 },
    ];
    for s in strategies {
        let bytes = encode_strategy(&s);
        let back = decode_strategy(&bytes).unwrap();
        assert_eq!(back, s);
    }
}

#[test]
fn decoder_rejects_malformed_bytes() {
    assert!(decode_strategy(&Vec::new()).is_err());
    assert!(decode_strategy(&vec![9u8, 0, 0]).is_err());
    // A blue/green record with a flag byte that is neither 0 nor 1.
    assert!(decode_strategy(&vec![0u8, 2u8]).is_err());
    // A linear record with a truncated field.
    assert!(decode_strategy(&vec![1u8, 1, 0, 0]).is_err());
}

#[test]
fn strategy_names_round_trip() {
    for t in [
        StrategyType::BlueGreen,
        StrategyType::Linear,
        StrategyType::Exponential,
        StrategyType::Custom,
    ] {
        assert_eq!(StrategyType::from_str_name(t.as_str_name()), Some(t));
    }
    assert_eq!(StrategyType::BlueGreen.as_str_name(), "BLUE_GREEN");
    assert_eq!(StrategyType::from_str_name("SOMETHING"), None);
}

#[test]
fn linear_schedule_rises_to_the_whole_population() {
    // ceil(10 * k / 4) for k = 1..4.
    let ts = linear_targets(10, 4);
    assert_eq!(ts, vec![3, 5, 8, 10]);
    // steps = k means exactly k updates, each monotone.
    let ts = linear_targets(7, 7);
    assert_eq!(ts.len(), 7);
    for w in ts.windows(2) {
        assert!(w[0] <= w[1]);
    }
    assert_eq!(*ts.last().unwrap(), 7);
}

#[test]
fn exponential_clamps_at_one_hundred() {
    // initial 40, steps 3: [40, 80, 100], not [40, 80, 160].
    assert_eq!(exponential_percentages(40, 3), vec![40, 80, 100]);
}

#[test]
fn exponential_with_full_initial_completes_after_one_step() {
    assert_eq!(exponential_percentages(100, 5), vec![100]);
    assert_eq!(exponential_percentages(250, 3), vec![100]);
}

#[test]
fn exponential_stops_at_one_hundred() {
    assert_eq!(exponential_percentages(30, 5), vec![30, 60, 100]);
    assert_eq!(exponential_percentages(10, 2), vec![10, 20]);
}

#[test]
fn percentage_target_rounds_half_up() {
    assert_eq!(percentage_target(7, 50), 4); // 3.5 rounds up
    assert_eq!(percentage_target(10, 25), 3); // 2.5 rounds up
    assert_eq!(percentage_target(10, 24), 2); // 2.4 rounds down
    assert_eq!(percentage_target(10, 100), 10);
    assert_eq!(percentage_target(10, 0), 0);
    assert_eq!(percentage_target(1, 50), 1); // 0.5 rounds up
}

#[test]
fn adjustment_creates_the_shortfall() {
    let existing = vec!["app-0".to_string(), "app-1".to_string()];
    match plan_adjustment(&existing, 5) {
        AdjustAction::Create { count } => assert_eq!(count, 3),
        _ => panic!("expected creates"),
    }
}

#[test]
fn adjustment_removes_first_listed_excess() {
    let existing = vec!["app-0".to_string(), "app-1".to_string(), "app-2".to_string()];
    match plan_adjustment(&existing, 1) {
        AdjustAction::Remove { victims } => {
            assert_eq!(victims, vec!["app-0".to_string(), "app-1".to_string()]);
        }
        _ => panic!("expected removals"),
    }
    assert!(matches!(plan_adjustment(&existing, 3), AdjustAction::Keep));
}

#[test]
fn container_names() {
    assert_eq!(versioned_container_name("my_app_version_", "new"), "my_app_version_new");
    assert_eq!(indexed_container_name("web", 7), "web-7");
    assert_eq!(indexed_container_name("web", 120), "web-120");
}

#[test]
fn blue_green_flip_commits_on_healthy_probe() {
    // The new-version container is not running: the executor creates
    // it, probes, gets a success, and commits; routing points at the
    // new version.
    let mut r = BlueGreenRollout::new("old".to_string(), "new".to_string());
    assert_eq!(r.phase, BlueGreenPhase::DeployingGreen);
    assert_eq!(r.load_balancer.current_version, "old");
    let a = r.on_container_status(false);
    assert_eq!(a, BlueGreenAction::CreateAndStart);
    let a = r.on_container_status(true);
    assert_eq!(a, BlueGreenAction::Probe);
    r.on_probe(true);
    assert_eq!(r.phase, BlueGreenPhase::Committed);
    assert_eq!(r.load_balancer.current_version, "new");

    // A repeat invocation is a no-op commit: the container runs, the
    // probe passes, routing stays on the new version.
    let mut again = BlueGreenRollout::new("old".to_string(), "new".to_string());
    let a = again.on_container_status(true);
    assert_eq!(a, BlueGreenAction::Probe);
    again.on_probe(true);
    assert_eq!(again.phase, BlueGreenPhase::Committed);
    assert_eq!(again.load_balancer.current_version, "new");
}

#[test]
fn blue_green_rolls_back_on_failed_probe() {
    let mut r = BlueGreenRollout::new("old".to_string(), "new".to_string());
    let _ = r.on_container_status(true);
    r.on_probe(false);
    assert_eq!(r.phase, BlueGreenPhase::RolledBack);
    assert_eq!(r.load_balancer.current_version, "old");
}

#[test]
fn rollback_restores_old_version_and_is_idempotent() {
    let mut r = BlueGreenRollout::new("old".to_string(), "new".to_string());
    let _ = r.on_container_status(true);
    r.on_probe(true);
    assert_eq!(r.load_balancer.current_version, "new");
    r.rollback_to_old();
    assert_eq!(r.phase, BlueGreenPhase::RolledBack);
    assert_eq!(r.load_balancer.current_version, "old");
    r.rollback_to_old();
    assert_eq!(r.phase, BlueGreenPhase::RolledBack);
    assert_eq!(r.load_balancer.current_version, "old");
}

#[test]
fn load_balancer_toggles_versions() {
    let mut lb = LoadBalancer::new("v1".to_string(), "v2".to_string());
    assert_eq!(lb.current_version, "v1");
    assert_eq!(lb.get_next_version(), "v2");
    assert_eq!(lb.current_version, "v2");
    assert_eq!(lb.get_next_version(), "v1");
    assert_eq!(lb.current_version, "v1");
}

#[test]
fn runtime_listing_lookup() {
    let names = vec!["/my_app_version_old".to_string(), "/my_app_version_new".to_string()];
    assert!(container_listed(&names, "my_app_version_new"));
    assert!(!container_listed(&names, "my_app_version_blue"));
    // The runtime's leading slash is required.
    assert!(!container_listed(&vec!["my_app_version_new".to_string()], "my_app_version_new"));
}

#[test]
fn cleanup_keeps_only_the_committed_container() {
    let names = vec!["app_old".to_string(), "app_new".to_string(), "app_stale".to_string()];
    let victims = plan_cleanup(&names, "app_new");
    assert_eq!(victims, vec!["app_old".to_string(), "app_stale".to_string()]);
    // Idempotent: nothing left to clean after a second pass.
    let survivors = vec!["app_new".to_string()];
    assert_eq!(plan_cleanup(&survivors, "app_new"), Vec::<String>::new());
}

#[test]
fn version_addresses() {
    assert_eq!(get_version_addr("old"), Some("http://127.0.0.1:7000"));
    assert_eq!(get_version_addr("new"), Some("http://127.0.0.1:7001"));
    assert_eq!(get_version_addr("blue"), None);
}

#[test]
fn strategy_validation() {
    assert!(validate_strategy(&RolloutStrategy::BlueGreen { blue_green_field: true }).is_ok());
    assert!(validate_strategy(&RolloutStrategy::Linear { steps: 3, interval_seconds: 5 }).is_ok());
    assert_eq!(
        validate_strategy(&RolloutStrategy::Linear { steps: 0, interval_seconds: 5 }),
        Err(RolloutError::InvalidStrategy)
    );
    assert_eq!(
        validate_strategy(&RolloutStrategy::Exponential {
            initial_percentage: 0,
            steps: 3,
            interval_seconds: 1,
        }),
        Err(RolloutError::InvalidStrategy)
    );
}

#[test]
fn concurrent_rollouts_are_refused() {
    let mut lock = RolloutLock::new();
    assert!(lock.try_start().is_ok());
    assert_eq!(lock.try_start(), Err(RolloutError::RolloutInProgress));
    lock.finish();
    assert!(lock.try_start().is_ok());
}
