use fleet_control::healer::{
    kind_message, ContainerRecord, ContainerState, HealDecision, HealEventKind, HealerState,
    INITIAL_BACKOFF_MS, MAX_BACKOFF_MS, MAX_HEAL_ATTEMPTS, REPORT_CAPACITY, ROLLING_PAUSE_MS,
};

fn record(id: &str, state: ContainerState) -> ContainerRecord {
    ContainerRecord {
        id: id.to_string(),
        name: format!("app-{}", id),
        image: "app:latest".to_string(),
        state,
        version_tag: "v1".to_string(),
        heal_attempts: 0,
    }
}

#[test]
fn healer_backoff_scenario() {
    // Supervisor sees dead container C.  Restart fails, remove +
    // recreate fails: attempts 1.  Repeat until attempts reach 3;
    // the next decision is a skip and no runtime call is made.
    let mut h = HealerState::new();
    h.start_healing();
    assert!(h.healing);

    for round in 1..=MAX_HEAL_ATTEMPTS {
        let d = h.decide("C", ContainerState::Dead);
        assert_eq!(d, HealDecision::TryRestart);
        // restart failed, recreate failed:
        h.on_recreate_failure("C");
        assert_eq!(h.get_attempts("C"), round);
    }
    assert_eq!(h.get_attempts("C"), 3);
    let d = h.decide("C", ContainerState::Dead);
    assert_eq!(d, HealDecision::SkipMaxAttempts);
    h.on_skip_max_attempts("C".to_string(), "2024-01-01T00:00:03Z".to_string());
    assert_eq!(h.events.len(), 1);
    assert_eq!(h.events[0].kind, HealEventKind::SkippedMaxAttempts);
    // No restart or recreate was recorded, so nothing was healed.
    assert_eq!(h.healed_total, 0);
}

#[test]
fn attempts_never_pass_the_bound() {
    let mut h = HealerState::new();
    for _ in 0..10 {
        h.on_recreate_failure("C");
    }
    assert_eq!(h.get_attempts("C"), MAX_HEAL_ATTEMPTS);
}

#[test]
fn attempts_reset_on_success() {
    let mut h = HealerState::new();
    h.on_recreate_failure("C");
    h.on_recreate_failure("C");
    assert_eq!(h.get_attempts("C"), 2);
    h.on_restart_success("C".to_string(), "2024-01-01T00:00:00Z".to_string());
    assert_eq!(h.get_attempts("C"), 0);
    assert_eq!(h.healed_total, 1);
    h.on_recreate_failure("C");
    h.on_recreate_success("C".to_string(), "2024-01-01T00:00:01Z".to_string());
    assert_eq!(h.get_attempts("C"), 0);
    assert_eq!(h.healed_total, 2);
}

#[test]
fn attempts_tracked_per_container() {
    let mut h = HealerState::new();
    h.on_recreate_failure("A");
    h.on_recreate_failure("A");
    h.on_recreate_failure("B");
    assert_eq!(h.get_attempts("A"), 2);
    assert_eq!(h.get_attempts("B"), 1);
    assert_eq!(h.get_attempts("C"), 0);
}

#[test]
fn no_event_recorded_twice_for_same_container_and_timestamp() {
    let mut h = HealerState::new();
    h.on_restart_success("C".to_string(), "2024-01-01T00:00:00Z".to_string());
    assert_eq!(h.events.len(), 1);
    // Same container, same timestamp: the ring keeps one entry.
    h.on_restart_success("C".to_string(), "2024-01-01T00:00:00Z".to_string());
    assert_eq!(h.events.len(), 1);
    // A later timestamp is a new event.
    h.on_restart_success("C".to_string(), "2024-01-01T00:00:05Z".to_string());
    assert_eq!(h.events.len(), 2);
    // Another container at the first timestamp is a new event too.
    h.on_restart_success("D".to_string(), "2024-01-01T00:00:00Z".to_string());
    assert_eq!(h.events.len(), 3);
}

#[test]
fn event_ring_is_bounded() {
    let mut h = HealerState::new();
    for i in 0..(REPORT_CAPACITY + 10) {
        h.on_skip_max_attempts("C".to_string(), format!("2024-01-01T00:00:00.{:05}Z", i));
    }
    assert_eq!(h.events.len(), REPORT_CAPACITY);
    // The oldest entries were evicted.
    assert_eq!(h.events[0].timestamp, format!("2024-01-01T00:00:00.{:05}Z", 10));
}

#[test]
fn backoff_doubles_to_cap_and_resets() {
    let mut h = HealerState::new();
    assert_eq!(h.backoff_ms, INITIAL_BACKOFF_MS);
    let mut expected = INITIAL_BACKOFF_MS;
    for _ in 0..8 {
        h.on_list_failure();
        expected = (expected * 2).min(MAX_BACKOFF_MS);
        assert_eq!(h.backoff_ms, expected);
    }
    assert_eq!(h.backoff_ms, MAX_BACKOFF_MS);
    h.on_list_success();
    assert_eq!(h.backoff_ms, INITIAL_BACKOFF_MS);
}

#[test]
fn healing_flag_toggles() {
    let mut h = HealerState::new();
    assert!(!h.healing);
    h.start_healing();
    assert!(h.healing);
    h.stop_healing();
    assert!(!h.healing);
}

#[test]
fn decisions_for_a_listing() {
    let mut h = HealerState::new();
    h.on_recreate_failure("dead-exhausted");
    h.on_recreate_failure("dead-exhausted");
    h.on_recreate_failure("dead-exhausted");
    let containers = vec![
        record("running", ContainerState::Running),
        record("dead-fresh", ContainerState::Dead),
        record("dead-exhausted", ContainerState::Dead),
        record("created", ContainerState::Created),
    ];
    let ds = h.decide_all(&containers);
    assert_eq!(
        ds,
        vec![
            HealDecision::NoAction,
            HealDecision::TryRestart,
            HealDecision::SkipMaxAttempts,
            HealDecision::NoAction,
        ]
    );
}

#[test]
fn healing_report_uses_wire_messages() {
    let mut h = HealerState::new();
    h.on_restart_success("a".to_string(), "t1".to_string());
    h.on_recreate_success("b".to_string(), "t2".to_string());
    h.on_skip_max_attempts("c".to_string(), "t3".to_string());
    let report = h.healing_report();
    assert_eq!(report.len(), 3);
    assert_eq!(report[0].container_id, "a");
    assert_eq!(report[0].timestamp, "t1");
    assert_eq!(report[0].event, "Container was restarted");
    assert_eq!(report[1].event, "Container was re-created");
    assert_eq!(report[2].event, "Skipped: max heal attempts reached");
}

#[test]
fn kind_messages_are_fixed() {
    assert_eq!(kind_message(HealEventKind::Restarted), "Container was restarted");
    assert_eq!(kind_message(HealEventKind::Recreated), "Container was re-created");
    assert_eq!(
        kind_message(HealEventKind::SkippedMaxAttempts),
        "Skipped: max heal attempts reached"
    );
}

#[test]
fn stamped_events_carry_real_timestamps() {
    let mut h = HealerState::new();
    h.on_restart_success_now("C".to_string());
    assert_eq!(h.events.len(), 1);
    assert_eq!(h.events[0].container_id, "C");
    // The clock wrapper must hand back an RFC 3339 timestamp, not an
    // unrelated value: it parses as a date and carries a year.
    assert!(h.events[0].timestamp.len() >= 19);
    assert!(h.events[0].timestamp.contains('T'));
    h.on_recreate_success_now("C".to_string());
    h.on_skip_max_attempts_now("C".to_string());
    assert_eq!(h.healed_total, 2);
}

#[test]
fn metrics_exposition_text() {
    let mut h = HealerState::new();
    h.on_restart_success("a".to_string(), "t1".to_string());
    h.on_restart_success("b".to_string(), "t2".to_string());
    let text = h.metrics_text();
    assert_eq!(
        text,
        "# HELP containers_healed_total Number of containers healed\n\
         # TYPE containers_healed_total counter\n\
         containers_healed_total 2\n"
    );
}

#[test]
fn rolling_pause_is_ten_seconds() {
    assert_eq!(ROLLING_PAUSE_MS, 10_000);
}
