//! Fleet reconciliation: a desired-state pass that compares the rules
//! with the live instances of each provider and region, and decides
//! which instances to create and which to destroy.
//!
//! Victim selection is deterministic: instances leave oldest first,
//! ties broken by ascending id, so that two passes over the same state
//! pick the same victims and keep the same survivors.

use vstd::prelude::*;
use vstd::relations::{sorted_by, total_ordering};
use vstd::seq_lib::lemma_sorted_unique;
use vstd::multiset::Multiset;
use crate::rules::Rule;
use crate::strutil::str_eq;

verus! {

/// The cloud providers the fleet spans.
#[derive(Clone, Copy, Debug, PartialEq, Eq, Structural)]
pub enum ProviderKind {
    Vultr,
    Hetzner,
}

/// Translates a rule's provider token.  Unknown tokens make the rule
/// set invalid.
pub open spec fn spec_provider_kind(s: Seq<char>) -> Option<ProviderKind> {
    if s == "vultr"@ {
        Some(ProviderKind::Vultr)
    } else if s == "hetzner"@ {
        Some(ProviderKind::Hetzner)
    } else {
        None
    }
}

/// Resolves a provider token to its kind.
pub fn provider_kind_of(s: &str) -> (r: Option<ProviderKind>)
    ensures
        r == spec_provider_kind(s@),
{
    if str_eq(s, "vultr") {
        Some(ProviderKind::Vultr)
    } else if str_eq(s, "hetzner") {
        Some(ProviderKind::Hetzner)
    } else {
        None
    }
}

/// One live instance as a provider adapter reports it.
pub struct ProviderInstance {
    pub region: String,
    pub key: InstanceKey,
}

/// A fleet member from any provider, tagged with its origin so that
/// destroy calls can be routed back.
pub enum AnyInstance {
    Vultr(ProviderInstance),
    Hetzner(ProviderInstance),
}

impl AnyInstance {
    /// Which provider reported this instance.
    pub open spec fn spec_kind(&self) -> ProviderKind {
        match self {
            AnyInstance::Vultr(_) => ProviderKind::Vultr,
            AnyInstance::Hetzner(_) => ProviderKind::Hetzner,
        }
    }

    /// The region the instance runs in.
    pub open spec fn spec_region(&self) -> Seq<char> {
        match self {
            AnyInstance::Vultr(i) => i.region@,
            AnyInstance::Hetzner(i) => i.region@,
        }
    }

    /// The canonical key of the instance.
    pub open spec fn spec_key(&self) -> InstanceKey {
        match self {
            AnyInstance::Vultr(i) => i.key,
            AnyInstance::Hetzner(i) => i.key,
        }
    }

    pub fn kind(&self) -> (k: ProviderKind)
        ensures
            k == self.spec_kind(),
    {
        match self {
            AnyInstance::Vultr(_) => ProviderKind::Vultr,
            AnyInstance::Hetzner(_) => ProviderKind::Hetzner,
        }
    }

    pub fn key(&self) -> (k: InstanceKey)
        ensures
            k == self.spec_key(),
    {
        match self {
            AnyInstance::Vultr(i) => i.key,
            AnyInstance::Hetzner(i) => i.key,
        }
    }

    pub fn region(&self) -> (r: &String)
        ensures
            r@ == self.spec_region(),
    {
        match self {
            AnyInstance::Vultr(i) => &i.region,
            AnyInstance::Hetzner(i) => &i.region,
        }
    }
}

/// Whether an instance belongs to the bucket of one provider/region pair.
pub open spec fn in_bucket(inst: AnyInstance, kind: ProviderKind, region: Seq<char>) -> bool {
    inst.spec_kind() == kind && inst.spec_region() == region
}

/// The bucket membership test for one provider/region pair, as a
/// relation value.
pub open spec fn bucket_pred(kind: ProviderKind, region: Seq<char>) -> spec_fn(AnyInstance) -> bool {
    |i: AnyInstance| in_bucket(i, kind, region)
}

/// The canonical keys of every instance in one bucket, in listing order.
pub open spec fn bucket_keys(s: Seq<AnyInstance>, kind: ProviderKind, region: Seq<char>) -> Seq<
    InstanceKey,
> {
    s.filter(bucket_pred(kind, region)).map_values(|i: AnyInstance| i.spec_key())
}

/// Collects the keys of the instances that one rule governs.
pub fn collect_bucket(instances: &Vec<AnyInstance>, kind: ProviderKind, region: &str) -> (out:
    Vec<InstanceKey>)
    ensures
        out@ == bucket_keys(instances@, kind, region@),
{
    let mut out: Vec<InstanceKey> = Vec::new();
    let mut i: usize = 0;
    while i < instances.len()
        invariant
            i <= instances.len(),
            out@ == bucket_keys(instances@.take(i as int), kind, region@),
        decreases instances.len() - i,
    {
        let ghost prefix = instances@.take(i as int);
        let inst = &instances[i];
        let same_kind = inst.kind() == kind;
        let same_region = str_eq(inst.region().as_str(), region);
        if same_kind && same_region {
            out.push(inst.key());
        }
        proof {
            let x = instances@[i as int];
            assert(instances@.take(i + 1 as int) =~= prefix.push(x));
            prefix.lemma_filter_push(x, bucket_pred(kind, region@));
            assert(out@ =~= bucket_keys(instances@.take(i + 1 as int), kind, region@));
        }
        i = i + 1;
    }
    proof {
        assert(instances@.take(instances@.len() as int) =~= instances@);
    }
    out
}

/// Counts the live instances of one provider and region, as the
/// manager does before deciding deltas.
pub fn count_instances(instances: &Vec<AnyInstance>, kind: ProviderKind, region: &str) -> (n:
    usize)
    ensures
        n == bucket_keys(instances@, kind, region@).len(),
{
    let bucket = collect_bucket(instances, kind, region);
    bucket.len()
}

/// The canonical view the reconciler keeps of one live instance:
/// its identity and its creation time (seconds since the epoch).
#[derive(Clone, Copy, Debug, PartialEq, Eq, Structural)]
pub struct InstanceKey {
    pub id: u64,
    pub created_at: u64,
}

/// Victim order: oldest first, ties broken by ascending id.
pub open spec fn older_first(a: InstanceKey, b: InstanceKey) -> bool {
    a.created_at < b.created_at || (a.created_at == b.created_at && a.id <= b.id)
}

/// The victim order as a relation value, as the sequence lemmas want it.
pub open spec fn victim_order() -> spec_fn(InstanceKey, InstanceKey) -> bool {
    |a: InstanceKey, b: InstanceKey| older_first(a, b)
}

/// The victim order is total, so sorting by it is canonical.
pub proof fn lemma_victim_order_total()
    ensures
        total_ordering(victim_order()),
{
}

/// Exec comparison mirroring `older_first`.
fn older_first_exec(a: &InstanceKey, b: &InstanceKey) -> (r: bool)
    ensures
        r == older_first(*a, *b),
{
    a.created_at < b.created_at || (a.created_at == b.created_at && a.id <= b.id)
}

/// Index of an element that precedes every element of `v` in the
/// victim order.
fn index_of_oldest(v: &Vec<InstanceKey>) -> (m: usize)
    requires
        v.len() > 0,
    ensures
        m < v.len(),
        forall|j: int| 0 <= j < v@.len() ==> older_first(v@[m as int], v@[j]),
{
    let mut m: usize = 0;
    let mut i: usize = 1;
    while i < v.len()
        invariant
            m < i <= v.len(),
            forall|j: int| 0 <= j < i ==> older_first(v@[m as int], v@[j]),
        decreases v.len() - i,
    {
        if older_first_exec(&v[i], &v[m]) && !older_first_exec(&v[m], &v[i]) {
            m = i;
        }
        i = i + 1;
    }
    m
}

/// Sorts instance keys into the victim order.  The result is exactly
/// `sort_by` of the view: the canonical ordering of the input.
pub fn sort_by_age(input: &Vec<InstanceKey>) -> (out: Vec<InstanceKey>)
    ensures
        out@ == input@.sort_by(victim_order()),
{
    let mut rest: Vec<InstanceKey> = Vec::new();
    let mut i: usize = 0;
    while i < input.len()
        invariant
            i <= input.len(),
            rest@ == input@.take(i as int),
        decreases input.len() - i,
    {
        rest.push(input[i]);
        proof {
            assert(input@.take(i + 1 as int) =~= input@.take(i as int).push(input@[i as int]));
        }
        i = i + 1;
    }
    proof {
        assert(input@.take(input@.len() as int) =~= input@);
    }

    let mut out: Vec<InstanceKey> = Vec::new();
    proof {
        broadcast use vstd::multiset::group_multiset_axioms;
        broadcast use vstd::multiset::lemma_multiset_empty_len;

        out@.to_multiset_ensures();
        assert(out@.to_multiset().add(rest@.to_multiset()) =~= input@.to_multiset());
    }
    while rest.len() > 0
        invariant
            sorted_by(out@, victim_order()),
            out@.to_multiset().add(rest@.to_multiset()) =~= input@.to_multiset(),
            forall|a: int, b: int|
                0 <= a < out@.len() && 0 <= b < rest@.len() ==> older_first(out@[a], rest@[b]),
        decreases rest.len(),
    {
        let m = index_of_oldest(&rest);
        let ghost old_out = out@;
        let ghost old_rest = rest@;
        let k = rest.remove(m);
        out.push(k);
        proof {
            broadcast use vstd::multiset::group_multiset_axioms;

            old_rest.to_multiset_ensures();
            old_out.to_multiset_ensures();
            assert(old_rest.remove(m as int).to_multiset() == old_rest.to_multiset().remove(k));
            assert(old_out.push(k).to_multiset() =~= old_out.to_multiset().insert(k));
            assert(old_rest.contains(k));
            assert(old_rest.to_multiset().count(k) > 0);
            assert(out@.to_multiset().add(rest@.to_multiset()) =~= old_out.to_multiset().add(
                old_rest.to_multiset()));
            assert forall|a: int, b: int|
                0 <= a < out@.len() && 0 <= b < rest@.len() implies older_first(out@[a], rest@[b]) by {
                assert(rest@[b] == if b < m { old_rest[b] } else { old_rest[b + 1] });
            }
            assert forall|a: int, b: int| 0 <= a < b < out@.len() implies victim_order()(
                out@[a], out@[b]) by {
                if b == out@.len() - 1 {
                    assert(older_first(old_out[a], old_rest[m as int]));
                } else {
                    assert(victim_order()(old_out[a], old_out[b]));
                }
            }
        }
    }
    proof {
        broadcast use vstd::multiset::group_multiset_axioms;

        lemma_victim_order_total();
        input@.lemma_sort_by_ensures(victim_order());
        rest@.to_multiset_ensures();
        assert(rest@.to_multiset() =~= Multiset::empty());
        assert(out@.to_multiset().add(Multiset::empty()) =~= out@.to_multiset());
        assert(out@.to_multiset() == input@.sort_by(victim_order()).to_multiset());
        lemma_sorted_unique(out@, input@.sort_by(victim_order()), victim_order());
        assert(out@ =~= input@.sort_by(victim_order()));
    }
    out
}

/// What one reconciliation rule asks the provider adapter to do.
pub enum RuleAction {
    /// Issue this many create calls.
    Create { count: usize },
    /// Destroy exactly these instances.
    Destroy { victims: Vec<InstanceKey> },
    /// The live count already matches the rule.
    Keep,
}

/// The plan the reconciler must produce for a rule with `desired`
/// instances when `live` are running.
pub open spec fn plan_matches(desired: int, live: Seq<InstanceKey>, action: RuleAction) -> bool {
    if live.len() < desired {
        action matches RuleAction::Create { count } && count == desired - live.len()
    } else if live.len() > desired {
        action matches RuleAction::Destroy { victims } && victims@ == live.sort_by(
            victim_order()).take(live.len() - desired)
    } else {
        action is Keep
    }
}

/// Decides the action for one rule: create the shortfall, destroy the
/// excess (oldest first, ties by id), or keep everything.
pub fn plan_rule(desired: usize, live: &Vec<InstanceKey>) -> (action: RuleAction)
    ensures
        plan_matches(desired as int, live@, action),
{
    if live.len() < desired {
        RuleAction::Create { count: desired - live.len() }
    } else if live.len() > desired {
        let excess = live.len() - desired;
        let mut victims = sort_by_age(live);
        proof {
            live@.lemma_sort_by_ensures(victim_order());
            live@.to_multiset_ensures();
            victims@.to_multiset_ensures();
            assert(victims@.len() == live@.len());
        }
        victims.truncate(excess);
        proof {
            assert(victims@ =~= live@.sort_by(victim_order()).take(live@.len() - desired));
        }
        RuleAction::Destroy { victims }
    } else {
        RuleAction::Keep
    }
}

/// The live count after the provider has carried an action out in
/// full: every create succeeded and every destroy succeeded.
pub open spec fn live_after(live: Seq<InstanceKey>, action: RuleAction) -> int {
    match action {
        RuleAction::Create { count } => live.len() + count,
        RuleAction::Destroy { victims } => live.len() - victims@.len(),
        RuleAction::Keep => live.len() as int,
    }
}

/// One reconciliation tick converges: with a stable provider that
/// carries the planned calls out, the live count equals the desired
/// count afterwards.
pub proof fn lemma_tick_converges(desired: int, live: Seq<InstanceKey>, action: RuleAction)
    requires
        desired >= 0,
        plan_matches(desired, live, action),
    ensures
        live_after(live, action) == desired,
{
    lemma_victim_order_total();
    live.lemma_sort_by_ensures(victim_order());
    if live.len() > desired {
        live.to_multiset_ensures();
        live.sort_by(victim_order()).to_multiset_ensures();
        assert(live.sort_by(victim_order()).len() == live.len());
    }
}

/// A rule with `desired = 0` empties its bucket: every live instance
/// is destroyed.
pub proof fn lemma_desired_zero_destroys_all(live: Seq<InstanceKey>, action: RuleAction)
    requires
        plan_matches(0, live, action),
    ensures
        live_after(live, action) == 0,
        live.len() > 0 ==> (action matches RuleAction::Destroy { victims } && victims@.len()
            == live.len()),
{
    lemma_tick_converges(0, live, action);
    live.lemma_sort_by_ensures(victim_order());
    live.to_multiset_ensures();
    live.sort_by(victim_order()).to_multiset_ensures();
}

/// Two reconciler runs over the same provider state order it the same
/// way, whatever order the instances were listed in.
pub proof fn lemma_sort_canonical(l1: Seq<InstanceKey>, l2: Seq<InstanceKey>)
    requires
        l1.to_multiset() == l2.to_multiset(),
    ensures
        l1.sort_by(victim_order()) == l2.sort_by(victim_order()),
{
    lemma_victim_order_total();
    l1.lemma_sort_by_ensures(victim_order());
    l2.lemma_sort_by_ensures(victim_order());
    lemma_sorted_unique(l1.sort_by(victim_order()), l2.sort_by(victim_order()), victim_order());
}

/// Determinism of victim selection: two independent runs over the same
/// live set (listed in any order) pick the same victims and keep the
/// same survivors.
pub proof fn lemma_victims_deterministic(
    l1: Seq<InstanceKey>,
    l2: Seq<InstanceKey>,
    desired: int,
    a1: RuleAction,
    a2: RuleAction,
)
    requires
        l1.to_multiset() == l2.to_multiset(),
        plan_matches(desired, l1, a1),
        plan_matches(desired, l2, a2),
    ensures
        a1 matches RuleAction::Destroy { victims: v1 } ==> (a2 matches RuleAction::Destroy {
            victims: v2 } && v1@ == v2@),
        l1.sort_by(victim_order()).skip(l1.len() - desired) == l2.sort_by(victim_order()).skip(
            l2.len() - desired),
{
    lemma_sort_canonical(l1, l2);
    l1.to_multiset_ensures();
    l2.to_multiset_ensures();
    assert(l1.len() == l2.len());
}

/// One (provider, region, desired) row after flattening a rule's
/// region list.
pub struct RulePair {
    pub kind: ProviderKind,
    pub region: String,
    pub desired: usize,
}

/// The pairs one rule stands for, one per region it names.
pub open spec fn pairs_of_rule(r: Rule) -> Seq<RulePair> {
    r.regions@.map_values(
        |g: String| RulePair {
            kind: spec_provider_kind(r.provider@).unwrap(),
            region: g,
            desired: r.instance_count,
        },
    )
}

/// The pairs of a whole rule set, in rule order.
pub open spec fn pairs_of_rules(rules: Seq<Rule>) -> Seq<RulePair>
    decreases rules.len(),
{
    if rules.len() == 0 {
        Seq::empty()
    } else {
        pairs_of_rules(rules.drop_last()) + pairs_of_rule(rules.last())
    }
}

/// Every rule names a provider the reconciler knows.
pub open spec fn rule_providers_known(rules: Seq<Rule>) -> bool {
    forall|i: int|
        0 <= i < rules.len() ==> (#[trigger] spec_provider_kind(rules[i].provider@)) is Some
}

/// Two pairs clash when they name the same provider and region.
pub open spec fn pair_conflicts(a: RulePair, b: RulePair) -> bool {
    a.kind == b.kind && a.region@ == b.region@
}

/// No two pairs of the flattened rule set clash.
pub open spec fn no_duplicate_pairs(s: Seq<RulePair>) -> bool {
    forall|i: int, j: int| 0 <= i < j < s.len() ==> !(#[trigger] pair_conflicts(s[i], s[j]))
}

/// A rule set the reconciler accepts: known providers, no duplicate
/// (provider, region) rows.
pub open spec fn rules_valid(rules: Seq<Rule>) -> bool {
    rule_providers_known(rules) && no_duplicate_pairs(pairs_of_rules(rules))
}

/// The error a tick fails with.
#[derive(Clone, Copy, Debug, PartialEq, Eq, Structural)]
pub enum ReconcileError {
    /// Duplicate (provider, region) row or unknown provider token.
    InvalidRules,
}

/// Flattens a rule set to its (provider, region, desired) pairs, or
/// rejects it when a provider token is unknown.
pub fn rules_to_pairs(rules: &Vec<Rule>) -> (r: Result<Vec<RulePair>, ReconcileError>)
    ensures
        (r is Ok) == rule_providers_known(rules@),
        r matches Ok(pairs) ==> pairs@ == pairs_of_rules(rules@),
{
    let mut out: Vec<RulePair> = Vec::new();
    let mut i: usize = 0;
    while i < rules.len()
        invariant
            i <= rules.len(),
            rule_providers_known(rules@.take(i as int)),
            out@ == pairs_of_rules(rules@.take(i as int)),
        decreases rules.len() - i,
    {
        let ghost prefix = rules@.take(i as int);
        let rule = &rules[i];
        let kind = match provider_kind_of(rule.provider.as_str()) {
            Some(k) => k,
            None => {
                proof {
                    assert(spec_provider_kind(rules@[i as int].provider@) is None);
                }
                return Err(ReconcileError::InvalidRules);
            },
        };
        let mut j: usize = 0;
        while j < rule.regions.len()
            invariant
                j <= rule.regions.len(),
                rule == &rules@[i as int],
                0 <= i < rules@.len(),
                kind == spec_provider_kind(rule.provider@).unwrap(),
                spec_provider_kind(rule.provider@) is Some,
                out@ == pairs_of_rules(rules@.take(i as int)) + pairs_of_rule(rules@[i as int])
                    .take(j as int),
            decreases rule.regions.len() - j,
        {
            let region = rule.regions[j].clone();
            out.push(RulePair { kind, region, desired: rule.instance_count });
            proof {
                assert(pairs_of_rule(rules@[i as int]).take(j + 1 as int) =~= pairs_of_rule(
                    rules@[i as int]).take(j as int).push(pairs_of_rule(rules@[i as int])[j as int]));
                assert(out@ =~= pairs_of_rules(rules@.take(i as int)) + pairs_of_rule(
                    rules@[i as int]).take(j + 1 as int));
            }
            j = j + 1;
        }
        proof {
            assert(pairs_of_rule(rules@[i as int]).take(rule.regions@.len() as int) =~=
                pairs_of_rule(rules@[i as int]));
            assert(rules@.take(i + 1 as int).drop_last() =~= prefix);
            assert(rules@.take(i + 1 as int).last() == rules@[i as int]);
            assert(rule_providers_known(rules@.take(i + 1 as int)));
        }
        i = i + 1;
    }
    proof {
        assert(rules@.take(rules@.len() as int) =~= rules@);
    }
    Ok(out)
}

fn pair_conflicts_exec(a: &RulePair, b: &RulePair) -> (r: bool)
    ensures
        r == pair_conflicts(*a, *b),
{
    a.kind == b.kind && str_eq(a.region.as_str(), b.region.as_str())
}

/// Looks for two rows naming the same (provider, region).
pub fn has_duplicate_pairs(pairs: &Vec<RulePair>) -> (dup: bool)
    ensures
        dup == !no_duplicate_pairs(pairs@),
{
    let mut i: usize = 1;
    while i < pairs.len()
        invariant
            1 <= i || pairs@.len() == 0,
            i <= pairs.len() || pairs@.len() == 0,
            forall|a: int, b: int| 0 <= a < b < i && b < pairs@.len() ==> !(#[trigger]
                pair_conflicts(pairs@[a], pairs@[b])),
        decreases pairs.len() - i,
    {
        let mut j: usize = 0;
        while j < i
            invariant
                j <= i < pairs@.len(),
                forall|a: int| 0 <= a < j ==> !(#[trigger] pair_conflicts(pairs@[a],
                    pairs@[i as int])),
            decreases i - j,
        {
            if pair_conflicts_exec(&pairs[j], &pairs[i]) {
                return true;
            }
            j = j + 1;
        }
        i = i + 1;
    }
    false
}

/// What a tick decided for one pair.
pub enum PairDecision {
    /// The pair's provider failed to list this tick: skipped.
    Skipped,
    /// The planned action against the provider.
    Planned(RuleAction),
}

/// A tick's outcome for one (provider, region, desired) pair.
pub struct RuleOutcome {
    pub pair: RulePair,
    pub decision: PairDecision,
}

/// Created calls an outcome asks for.
pub open spec fn outcome_created(o: RuleOutcome) -> int {
    match o.decision {
        PairDecision::Planned(RuleAction::Create { count }) => count as int,
        _ => 0,
    }
}

/// Destroy calls an outcome asks for.
pub open spec fn outcome_destroyed(o: RuleOutcome) -> int {
    match o.decision {
        PairDecision::Planned(RuleAction::Destroy { victims }) => victims@.len() as int,
        _ => 0,
    }
}

/// Total create calls of a tick.
pub open spec fn created_total(s: Seq<RuleOutcome>) -> int
    decreases s.len(),
{
    if s.len() == 0 {
        0
    } else {
        created_total(s.drop_last()) + outcome_created(s.last())
    }
}

/// Total destroy calls of a tick.
pub open spec fn destroyed_total(s: Seq<RuleOutcome>) -> int
    decreases s.len(),
{
    if s.len() == 0 {
        0
    } else {
        destroyed_total(s.drop_last()) + outcome_destroyed(s.last())
    }
}

/// The aggregate a tick reports.
pub struct ReconciliationReport {
    pub created: u128,
    pub destroyed: u128,
    pub failed_providers: Vec<ProviderKind>,
}

/// Everything one tick produced.
pub struct TickOutcome {
    pub outcomes: Vec<RuleOutcome>,
    pub report: ReconciliationReport,
}

/// What the tick owes for one pair, given the instances that were
/// listed and the providers whose listing failed.
pub open spec fn decision_matches(
    pair: RulePair,
    instances: Seq<AnyInstance>,
    failed: Seq<ProviderKind>,
    decision: PairDecision,
) -> bool {
    if failed.contains(pair.kind) {
        decision is Skipped
    } else {
        decision matches PairDecision::Planned(action) && plan_matches(
            pair.desired as int,
            bucket_keys(instances, pair.kind, pair.region@),
            action,
        )
    }
}

fn contains_kind(v: &Vec<ProviderKind>, kind: ProviderKind) -> (r: bool)
    ensures
        r == v@.contains(kind),
{
    let mut i: usize = 0;
    while i < v.len()
        invariant
            i <= v.len(),
            forall|j: int| 0 <= j < i ==> v@[j] != kind,
        decreases v.len() - i,
    {
        if v[i] == kind {
            return true;
        }
        i = i + 1;
    }
    proof {
        assert(forall|j: int| 0 <= j < v@.len() ==> v@[j] != kind);
    }
    false
}

/// One reconciliation pass.  Reads the rules, buckets the listed
/// instances by (provider, region), and decides the create and
/// destroy calls for every rule; rules of a provider whose listing
/// failed are skipped and the provider is recorded in the report.
/// Fails with `InvalidRules` exactly on an unknown provider token or
/// a duplicate (provider, region) row.
pub fn reconcile_tick(
    rules: &Vec<Rule>,
    instances: &Vec<AnyInstance>,
    failed_providers: &Vec<ProviderKind>,
) -> (r: Result<TickOutcome, ReconcileError>)
    ensures
        (r is Ok) == rules_valid(rules@),
        r matches Ok(o) ==> {
            &&& o.outcomes@.len() == pairs_of_rules(rules@).len()
            &&& forall|k: int|
                0 <= k < o.outcomes@.len() ==> (#[trigger] o.outcomes@[k]).pair == pairs_of_rules(
                    rules@)[k] && decision_matches(
                    pairs_of_rules(rules@)[k],
                    instances@,
                    failed_providers@,
                    o.outcomes@[k].decision,
                )
            &&& o.report.created == created_total(o.outcomes@)
            &&& o.report.destroyed == destroyed_total(o.outcomes@)
            &&& o.report.failed_providers@ == failed_providers@
        },
{
    let pairs = match rules_to_pairs(rules) {
        Ok(pairs) => pairs,
        Err(e) => {
            return Err(e);
        },
    };
    if has_duplicate_pairs(&pairs) {
        return Err(ReconcileError::InvalidRules);
    }
    let mut outcomes: Vec<RuleOutcome> = Vec::new();
    let mut created: u128 = 0;
    let mut destroyed: u128 = 0;
    let mut i: usize = 0;
    while i < pairs.len()
        invariant
            i <= pairs.len(),
            pairs@.len() <= usize::MAX,
            outcomes@.len() == i,
            forall|k: int|
                0 <= k < i ==> (#[trigger] outcomes@[k]).pair == pairs@[k] && decision_matches(
                    pairs@[k],
                    instances@,
                    failed_providers@,
                    outcomes@[k].decision,
                ),
            created == created_total(outcomes@),
            destroyed == destroyed_total(outcomes@),
            created <= i * 0xffff_ffff_ffff_ffffu128,
            destroyed <= i * 0xffff_ffff_ffff_ffffu128,
        decreases pairs.len() - i,
    {
        let ghost old_outcomes = outcomes@;
        let pair = RulePair {
            kind: pairs[i].kind,
            region: pairs[i].region.clone(),
            desired: pairs[i].desired,
        };
        let decision = if contains_kind(failed_providers, pair.kind) {
            PairDecision::Skipped
        } else {
            let bucket = collect_bucket(instances, pair.kind, pair.region.as_str());
            PairDecision::Planned(plan_rule(pair.desired, &bucket))
        };
        let add_created: usize = match &decision {
            PairDecision::Planned(RuleAction::Create { count }) => *count,
            _ => 0,
        };
        let add_destroyed: usize = match &decision {
            PairDecision::Planned(RuleAction::Destroy { victims }) => victims.len(),
            _ => 0,
        };
        let outcome = RuleOutcome { pair, decision };
        proof {
            assert(i * 0xffff_ffff_ffff_ffffu128 + 0xffff_ffff_ffff_ffffu128 == (i + 1)
                * 0xffff_ffff_ffff_ffffu128) by (nonlinear_arith);
            assert(add_created <= 0xffff_ffff_ffff_ffffu128);
            assert(add_destroyed <= 0xffff_ffff_ffff_ffffu128);
        }
        created = created + add_created as u128;
        destroyed = destroyed + add_destroyed as u128;
        outcomes.push(outcome);
        proof {
            assert(outcomes@.drop_last() =~= old_outcomes);
            assert(outcomes@.last().pair == pairs@[i as int]);
        }
        i = i + 1;
    }
    proof {
        assert(pairs@.take(pairs@.len() as int) =~= pairs@);
    }
    let report = ReconciliationReport {
        created,
        destroyed,
        failed_providers: clone_kinds(failed_providers),
    };
    Ok(TickOutcome { outcomes, report })
}

fn clone_kinds(v: &Vec<ProviderKind>) -> (out: Vec<ProviderKind>)
    ensures
        out@ == v@,
{
    let mut out: Vec<ProviderKind> = Vec::new();
    let mut i: usize = 0;
    while i < v.len()
        invariant
            i <= v.len(),
            out@ == v@.take(i as int),
        decreases v.len() - i,
    {
        out.push(v[i]);
        proof {
            assert(v@.take(i + 1 as int) =~= v@.take(i as int).push(v@[i as int]));
        }
        i = i + 1;
    }
    proof {
        assert(v@.take(v@.len() as int) =~= v@);
    }
    out
}

} // verus!
