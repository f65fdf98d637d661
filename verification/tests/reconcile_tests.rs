use fleet_control::reconcile::{
    plan_rule, reconcile_tick, collect_bucket, count_instances, provider_kind_of, rules_to_pairs,
    has_duplicate_pairs, AnyInstance, InstanceKey, PairDecision, ProviderInstance, ProviderKind,
    ReconcileError, RuleAction,
};
use fleet_control::rules::Rule;

fn key(id: u64, created_at: u64) -> InstanceKey {
    InstanceKey { id, created_at }
}

fn vultr_instance(region: &str, id: u64, created_at: u64) -> AnyInstance {
    AnyInstance::Vultr(ProviderInstance { region: region.to_string(), key: key(id, created_at) })
}

fn hetzner_instance(region: &str, id: u64, created_at: u64) -> AnyInstance {
    AnyInstance::Hetzner(ProviderInstance { region: region.to_string(), key: key(id, created_at) })
}

#[test]
fn scale_up_issues_two_creates() {
    // Rules {(vultr, ewr, 3)}, provider reports 1 live.
    let rules = vec![Rule {
        provider: "vultr".to_string(),
        regions: vec!["ewr".to_string()],
        instance_count: 3,
    }];
    let instances = vec![vultr_instance("ewr", 10, 100)];
    let outcome = reconcile_tick(&rules, &instances, &Vec::new()).unwrap();
    assert_eq!(outcome.outcomes.len(), 1);
    match &outcome.outcomes[0].decision {
        PairDecision::Planned(RuleAction::Create { count }) => assert_eq!(*count, 2),
        _ => panic!("expected two creates"),
    }
    assert_eq!(outcome.report.created, 2);
    assert_eq!(outcome.report.destroyed, 0);

    // Next tick: provider reports 3 live; no calls are issued.
    let instances = vec![
        vultr_instance("ewr", 10, 100),
        vultr_instance("ewr", 11, 150),
        vultr_instance("ewr", 12, 160),
    ];
    let outcome = reconcile_tick(&rules, &instances, &Vec::new()).unwrap();
    match &outcome.outcomes[0].decision {
        PairDecision::Planned(RuleAction::Keep) => {}
        _ => panic!("expected no-op"),
    }
    assert_eq!(outcome.report.created, 0);
    assert_eq!(outcome.report.destroyed, 0);
}

#[test]
fn deterministic_victims_oldest_first() {
    // Rules {(hetzner, fsn1, 1)}, 3 live with created_at t1 < t2 < t3.
    let live = vec![key(3, 300), key(1, 100), key(2, 200)];
    let action = plan_rule(1, &live);
    match action {
        RuleAction::Destroy { victims } => {
            assert_eq!(victims.len(), 2);
            assert_eq!(victims[0], key(1, 100));
            assert_eq!(victims[1], key(2, 200));
        }
        _ => panic!("expected destroys"),
    }

    // Shuffled input: same victims, same survivor.
    let shuffled = vec![key(2, 200), key(3, 300), key(1, 100)];
    let action = plan_rule(1, &shuffled);
    match action {
        RuleAction::Destroy { victims } => {
            assert_eq!(victims.len(), 2);
            assert_eq!(victims[0], key(1, 100));
            assert_eq!(victims[1], key(2, 200));
        }
        _ => panic!("expected destroys"),
    }
}

#[test]
fn victim_tiebreak_by_id() {
    let live = vec![key(9, 100), key(4, 100), key(7, 100)];
    let action = plan_rule(1, &live);
    match action {
        RuleAction::Destroy { victims } => {
            assert_eq!(victims[0], key(4, 100));
            assert_eq!(victims[1], key(7, 100));
        }
        _ => panic!("expected destroys"),
    }
}

#[test]
fn desired_zero_destroys_everything() {
    let live = vec![key(1, 10), key(2, 20)];
    let action = plan_rule(0, &live);
    match action {
        RuleAction::Destroy { victims } => assert_eq!(victims.len(), 2),
        _ => panic!("expected destroys"),
    }
}

#[test]
fn empty_bucket_with_zero_desired_keeps() {
    let live: Vec<InstanceKey> = Vec::new();
    let action = plan_rule(0, &live);
    assert!(matches!(action, RuleAction::Keep));
}

#[test]
fn duplicate_rule_rows_are_invalid() {
    let rules = vec![
        Rule {
            provider: "vultr".to_string(),
            regions: vec!["ewr".to_string(), "ewr".to_string()],
            instance_count: 1,
        },
    ];
    let r = reconcile_tick(&rules, &Vec::new(), &Vec::new());
    assert_eq!(r.err(), Some(ReconcileError::InvalidRules));
}

#[test]
fn unknown_provider_token_is_invalid() {
    let rules = vec![Rule {
        provider: "oracle".to_string(),
        regions: vec!["ewr".to_string()],
        instance_count: 1,
    }];
    let r = reconcile_tick(&rules, &Vec::new(), &Vec::new());
    assert_eq!(r.err(), Some(ReconcileError::InvalidRules));
}

#[test]
fn failed_provider_rules_are_skipped() {
    let rules = vec![
        Rule {
            provider: "vultr".to_string(),
            regions: vec!["ewr".to_string()],
            instance_count: 2,
        },
        Rule {
            provider: "hetzner".to_string(),
            regions: vec!["fsn1".to_string()],
            instance_count: 1,
        },
    ];
    let failed = vec![ProviderKind::Hetzner];
    let outcome = reconcile_tick(&rules, &Vec::new(), &failed).unwrap();
    assert!(matches!(
        outcome.outcomes[0].decision,
        PairDecision::Planned(RuleAction::Create { count: 2 })
    ));
    assert!(matches!(outcome.outcomes[1].decision, PairDecision::Skipped));
    assert_eq!(outcome.report.failed_providers, failed);
}

#[test]
fn buckets_split_by_provider_and_region() {
    let instances = vec![
        vultr_instance("ewr", 1, 10),
        hetzner_instance("ewr", 2, 20),
        vultr_instance("fra", 3, 30),
        vultr_instance("ewr", 4, 40),
    ];
    assert_eq!(count_instances(&instances, ProviderKind::Vultr, "ewr"), 2);
    assert_eq!(count_instances(&instances, ProviderKind::Hetzner, "ewr"), 1);
    assert_eq!(count_instances(&instances, ProviderKind::Vultr, "fra"), 1);
    assert_eq!(count_instances(&instances, ProviderKind::Hetzner, "fra"), 0);
    let bucket = collect_bucket(&instances, ProviderKind::Vultr, "ewr");
    assert_eq!(bucket, vec![key(1, 10), key(4, 40)]);
}

#[test]
fn provider_tokens_resolve() {
    assert_eq!(provider_kind_of("vultr"), Some(ProviderKind::Vultr));
    assert_eq!(provider_kind_of("hetzner"), Some(ProviderKind::Hetzner));
    assert_eq!(provider_kind_of("aws"), None);
}

#[test]
fn pair_flattening_and_duplicates() {
    let rules = vec![Rule {
        provider: "vultr".to_string(),
        regions: vec!["ewr".to_string(), "fra".to_string()],
        instance_count: 2,
    }];
    let pairs = rules_to_pairs(&rules).unwrap();
    assert_eq!(pairs.len(), 2);
    assert_eq!(pairs[0].region, "ewr");
    assert_eq!(pairs[1].region, "fra");
    assert!(!has_duplicate_pairs(&pairs));
}
