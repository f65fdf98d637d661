//! Rollout execution: strategy descriptions and their wire codec,
//! traffic schedules (blue/green, linear, exponential), and the
//! container-population adjustment primitive.

use vstd::prelude::*;
use crate::strutil::{str_eq, spec_decimal, u64_to_string};

verus! {

/// Wire-level tag of a rollout strategy.
#[derive(Clone, Copy, Debug, PartialEq, Eq, Structural)]
pub enum StrategyType {
    BlueGreen,
    Linear,
    Exponential,
    Custom,
}

/// The wire name of a strategy type.
pub open spec fn spec_strategy_name(t: StrategyType) -> Seq<char> {
    match t {
        StrategyType::BlueGreen => "BLUE_GREEN"@,
        StrategyType::Linear => "LINEAR"@,
        StrategyType::Exponential => "EXPONENTIAL"@,
        StrategyType::Custom => "CUSTOM"@,
    }
}

/// The strategy type a wire name stands for.
pub open spec fn spec_strategy_of_name(s: Seq<char>) -> Option<StrategyType> {
    if s == "BLUE_GREEN"@ {
        Some(StrategyType::BlueGreen)
    } else if s == "LINEAR"@ {
        Some(StrategyType::Linear)
    } else if s == "EXPONENTIAL"@ {
        Some(StrategyType::Exponential)
    } else if s == "CUSTOM"@ {
        Some(StrategyType::Custom)
    } else {
        None
    }
}

impl StrategyType {
    /// String value of the type as the wire definition names it.
    pub fn as_str_name(&self) -> (s: &'static str)
        ensures
            s@ == spec_strategy_name(*self),
    {
        match self {
            StrategyType::BlueGreen => "BLUE_GREEN",
            StrategyType::Linear => "LINEAR",
            StrategyType::Exponential => "EXPONENTIAL",
            StrategyType::Custom => "CUSTOM",
        }
    }

    /// Creates a type from its wire name.
    pub fn from_str_name(value: &str) -> (r: Option<StrategyType>)
        ensures
            r == spec_strategy_of_name(value@),
    {
        if str_eq(value, "BLUE_GREEN") {
            Some(StrategyType::BlueGreen)
        } else if str_eq(value, "LINEAR") {
            Some(StrategyType::Linear)
        } else if str_eq(value, "EXPONENTIAL") {
            Some(StrategyType::Exponential)
        } else if str_eq(value, "CUSTOM") {
            Some(StrategyType::Custom)
        } else {
            None
        }
    }
}

/// The wire name round-trips for every strategy type.
pub proof fn lemma_strategy_name_round_trip(t: StrategyType)
    ensures
        spec_strategy_of_name(spec_strategy_name(t)) == Some(t),
{
    reveal_strlit("BLUE_GREEN");
    reveal_strlit("LINEAR");
    reveal_strlit("EXPONENTIAL");
    reveal_strlit("CUSTOM");
    assert("BLUE_GREEN"@.len() == 10);
    assert("LINEAR"@.len() == 6);
    assert("EXPONENTIAL"@.len() == 11);
    assert("CUSTOM"@.len() == 6);
    assert("LINEAR"@[0] == 'L');
    assert("CUSTOM"@[0] == 'C');
}

/// A declared rollout strategy.
#[derive(Clone, Copy, Debug, PartialEq, Eq, Structural)]
pub enum RolloutStrategy {
    /// Two populations; flip the routing pointer to the named side.
    BlueGreen { blue_green_field: bool },
    /// Advance the new version by `100/steps` percent per interval.
    Linear { steps: i32, interval_seconds: i32 },
    /// Start at `initial_percentage`, double each step, clamp at 100.
    Exponential { initial_percentage: i32, steps: i32, interval_seconds: i32 },
}

impl RolloutStrategy {
    /// The wire tag of this strategy.
    pub open spec fn spec_strategy_type(&self) -> StrategyType {
        match self {
            RolloutStrategy::BlueGreen { .. } => StrategyType::BlueGreen,
            RolloutStrategy::Linear { .. } => StrategyType::Linear,
            RolloutStrategy::Exponential { .. } => StrategyType::Exponential,
        }
    }

    /// The wire tag of this strategy.
    pub fn strategy_type(&self) -> (t: StrategyType)
        ensures
            t == self.spec_strategy_type(),
    {
        match self {
            RolloutStrategy::BlueGreen { .. } => StrategyType::BlueGreen,
            RolloutStrategy::Linear { .. } => StrategyType::Linear,
            RolloutStrategy::Exponential { .. } => StrategyType::Exponential,
        }
    }
}

/// The four little-endian bytes of a 32-bit value.
pub open spec fn spec_u32_le(u: u32) -> Seq<u8> {
    seq![
        (u & 0xff) as u8,
        ((u >> 8) & 0xff) as u8,
        ((u >> 16) & 0xff) as u8,
        ((u >> 24) & 0xff) as u8,
    ]
}

/// The 32-bit value four little-endian bytes stand for.
pub open spec fn spec_u32_from_le(b0: u8, b1: u8, b2: u8, b3: u8) -> u32 {
    (b0 as u32) | ((b1 as u32) << 8) | ((b2 as u32) << 16) | ((b3 as u32) << 24)
}

proof fn lemma_u32_le_round_trip(u: u32)
    ensures
        spec_u32_from_le(
            (u & 0xff) as u8,
            ((u >> 8) & 0xff) as u8,
            ((u >> 16) & 0xff) as u8,
            ((u >> 24) & 0xff) as u8,
        ) == u,
{
    assert((((u & 0xff) as u8) as u32) | (((((u >> 8) & 0xff) as u8) as u32) << 8) | (((((u >> 16)
        & 0xff) as u8) as u32) << 16) | (((((u >> 24) & 0xff) as u8) as u32) << 24) == u)
        by (bit_vector);
}

/// The byte encoding of a strategy: a one-byte tag, then the fields,
/// 32-bit ones little-endian.
pub open spec fn spec_encode(s: RolloutStrategy) -> Seq<u8> {
    match s {
        RolloutStrategy::BlueGreen { blue_green_field } => seq![0u8, if blue_green_field {
            1u8
        } else {
            0u8
        }],
        RolloutStrategy::Linear { steps, interval_seconds } => seq![1u8] + spec_u32_le(
            steps as u32) + spec_u32_le(interval_seconds as u32),
        RolloutStrategy::Exponential { initial_percentage, steps, interval_seconds } => seq![2u8]
            + spec_u32_le(initial_percentage as u32) + spec_u32_le(steps as u32) + spec_u32_le(
            interval_seconds as u32),
    }
}

/// What a byte string decodes to, if anything.
pub open spec fn spec_decode(b: Seq<u8>) -> Option<RolloutStrategy> {
    if b.len() == 2 && b[0] == 0u8 && (b[1] == 0u8 || b[1] == 1u8) {
        Some(RolloutStrategy::BlueGreen { blue_green_field: b[1] == 1u8 })
    } else if b.len() == 9 && b[0] == 1u8 {
        Some(RolloutStrategy::Linear {
            steps: spec_u32_from_le(b[1], b[2], b[3], b[4]) as i32,
            interval_seconds: spec_u32_from_le(b[5], b[6], b[7], b[8]) as i32,
        })
    } else if b.len() == 13 && b[0] == 2u8 {
        Some(RolloutStrategy::Exponential {
            initial_percentage: spec_u32_from_le(b[1], b[2], b[3], b[4]) as i32,
            steps: spec_u32_from_le(b[5], b[6], b[7], b[8]) as i32,
            interval_seconds: spec_u32_from_le(b[9], b[10], b[11], b[12]) as i32,
        })
    } else {
        None
    }
}

/// Encoding then decoding gives back the same strategy.
pub proof fn lemma_codec_round_trip(s: RolloutStrategy)
    ensures
        spec_decode(spec_encode(s)) == Some(s),
{
    match s {
        RolloutStrategy::BlueGreen { blue_green_field } => {
        },
        RolloutStrategy::Linear { steps, interval_seconds } => {
            lemma_u32_le_round_trip(steps as u32);
            lemma_u32_le_round_trip(interval_seconds as u32);
            assert(steps as u32 as i32 == steps) by (bit_vector);
            assert(interval_seconds as u32 as i32 == interval_seconds) by (bit_vector);
        },
        RolloutStrategy::Exponential { initial_percentage, steps, interval_seconds } => {
            lemma_u32_le_round_trip(initial_percentage as u32);
            lemma_u32_le_round_trip(steps as u32);
            lemma_u32_le_round_trip(interval_seconds as u32);
            assert(initial_percentage as u32 as i32 == initial_percentage) by (bit_vector);
            assert(steps as u32 as i32 == steps) by (bit_vector);
            assert(interval_seconds as u32 as i32 == interval_seconds) by (bit_vector);
        },
    }
}

fn push_u32_le(out: &mut Vec<u8>, x: u32)
    ensures
        final(out)@ == old(out)@ + spec_u32_le(x),
{
    out.push((x & 0xff) as u8);
    out.push(((x >> 8) & 0xff) as u8);
    out.push(((x >> 16) & 0xff) as u8);
    out.push(((x >> 24) & 0xff) as u8);
    proof {
        assert(final(out)@ =~= old(out)@ + spec_u32_le(x));
    }
}

/// Encodes a strategy for the wire.
pub fn encode_strategy(s: &RolloutStrategy) -> (b: Vec<u8>)
    ensures
        b@ == spec_encode(*s),
{
    let mut out: Vec<u8> = Vec::new();
    match s {
        RolloutStrategy::BlueGreen { blue_green_field } => {
            out.push(0u8);
            out.push(if *blue_green_field { 1u8 } else { 0u8 });
            proof {
                assert(out@ =~= spec_encode(*s));
            }
        },
        RolloutStrategy::Linear { steps, interval_seconds } => {
            out.push(1u8);
            push_u32_le(&mut out, *steps as u32);
            push_u32_le(&mut out, *interval_seconds as u32);
            proof {
                assert(out@ =~= spec_encode(*s));
            }
        },
        RolloutStrategy::Exponential { initial_percentage, steps, interval_seconds } => {
            out.push(2u8);
            push_u32_le(&mut out, *initial_percentage as u32);
            push_u32_le(&mut out, *steps as u32);
            push_u32_le(&mut out, *interval_seconds as u32);
            proof {
                assert(out@ =~= spec_encode(*s));
            }
        },
    }
    out
}

/// Why a byte string was rejected.
#[derive(Clone, Copy, Debug, PartialEq, Eq, Structural)]
pub enum CodecError {
    /// Unknown tag, bad length, or a malformed field.
    Malformed,
}

fn read_u32_le(b: &Vec<u8>, at: usize) -> (x: u32)
    requires
        at + 4 <= b@.len(),
    ensures
        x == spec_u32_from_le(b@[at as int], b@[at + 1], b@[at + 2], b@[at + 3]),
{
    let n = b.len();
    proof {
        assert(at + 4 <= n);
    }
    let x0 = b[at] as u32;
    let x1 = b[at + 1] as u32;
    let x2 = b[at + 2] as u32;
    let x3 = b[at + 3] as u32;
    proof {
        assert(x1 << 8 <= 0xff00) by (bit_vector)
            requires x1 <= 0xff;
        assert(x2 << 16 <= 0xff0000) by (bit_vector)
            requires x2 <= 0xff;
        assert(x3 << 24 <= 0xff000000u32) by (bit_vector)
            requires x3 <= 0xff;
    }
    x0 | (x1 << 8) | (x2 << 16) | (x3 << 24)
}

/// Decodes a strategy from the wire; fails exactly on byte strings
/// that no strategy encodes to.
pub fn decode_strategy(b: &Vec<u8>) -> (r: Result<RolloutStrategy, CodecError>)
    ensures
        (r is Ok) == (spec_decode(b@) is Some),
        r matches Ok(s) ==> spec_decode(b@) == Some(s),
{
    if b.len() == 2 && b[0] == 0u8 && (b[1] == 0u8 || b[1] == 1u8) {
        Ok(RolloutStrategy::BlueGreen { blue_green_field: b[1] == 1u8 })
    } else if b.len() == 9 && b[0] == 1u8 {
        let steps = read_u32_le(b, 1) as i32;
        let interval_seconds = read_u32_le(b, 5) as i32;
        Ok(RolloutStrategy::Linear { steps, interval_seconds })
    } else if b.len() == 13 && b[0] == 2u8 {
        let initial_percentage = read_u32_le(b, 1) as i32;
        let steps = read_u32_le(b, 5) as i32;
        let interval_seconds = read_u32_le(b, 9) as i32;
        Ok(RolloutStrategy::Exponential { initial_percentage, steps, interval_seconds })
    } else {
        Err(CodecError::Malformed)
    }
}

/// How many containers a percentage of a population stands for:
/// `total * percentage / 100`, rounded half up.
pub open spec fn spec_percentage_target(total: u64, percentage: u64) -> int {
    (total * percentage + 50) / 100
}

/// Rounded population target for one adjustment step.
pub fn percentage_target(total: u64, percentage: u64) -> (target: u64)
    requires
        total <= 1_000_000,
        percentage <= 100,
    ensures
        target == spec_percentage_target(total, percentage),
        target <= total,
{
    proof {
        assert(total * percentage <= total * 100) by (nonlinear_arith)
            requires percentage <= 100;
        assert((total * percentage + 50) / 100 * 100 <= total * percentage + 50);
        assert((total * percentage + 50) / 100 <= total) by (nonlinear_arith)
            requires total * percentage <= total * 100;
    }
    (total * percentage + 50) / 100
}

/// The population target of linear step `k` (1-based): `total * k /
/// steps`, rounded up.
pub open spec fn spec_linear_target(total: int, steps: int, k: int) -> int {
    (total * k + steps - 1) / steps
}

/// The per-step targets of a linear rollout: `steps` targets, rising
/// to the whole population.
pub fn linear_targets(total: u64, steps: u32) -> (ts: Vec<u64>)
    requires
        1 <= steps,
    ensures
        ts@.len() == steps,
        forall|k: int|
            0 <= k < steps ==> (#[trigger] ts@[k]) == spec_linear_target(
                total as int, steps as int, k + 1),
        forall|k: int| 0 <= k < steps - 1 ==> (#[trigger] ts@[k]) <= ts@[k + 1],
        ts@[steps - 1] == total,
{
    let mut ts: Vec<u64> = Vec::new();
    let mut k: u32 = 0;
    while k < steps
        invariant
            1 <= steps,
            k <= steps,
            ts@.len() == k,
            forall|j: int|
                0 <= j < k ==> (#[trigger] ts@[j]) == spec_linear_target(
                    total as int, steps as int, j + 1),
        decreases steps - k,
    {
        proof {
            assert((total as int) * ((k + 1) as int) <= 0xffff_ffff_ffff_ffff * 0x1_0000_0000)
                by (nonlinear_arith)
                requires total <= 0xffff_ffff_ffff_ffffu64 && k + 1 <= 0x1_0000_0000;
        }
        let num: u128 = (total as u128) * ((k + 1) as u128) + (steps as u128) - 1;
        let t128: u128 = num / (steps as u128);
        proof {
            lemma_linear_target_le_total(total as int, steps as int, k as int + 1);
            assert(t128 == spec_linear_target(total as int, steps as int, k as int + 1));
        }
        let t: u64 = t128 as u64;
        ts.push(t);
        k = k + 1;
    }
    proof {
        assert forall|k: int| 0 <= k < steps - 1 implies (#[trigger] ts@[k]) <= ts@[k + 1] by {
            lemma_linear_target_monotone(total as int, steps as int, k + 1);
        }
        lemma_linear_target_full(total as int, steps as int);
    }
    ts
}

proof fn lemma_linear_target_le_total(total: int, steps: int, k: int)
    requires
        1 <= steps,
        0 <= total,
        1 <= k <= steps,
    ensures
        0 <= spec_linear_target(total, steps, k) <= total,
{
    assert(total * k <= total * steps) by (nonlinear_arith)
        requires 0 <= total && k <= steps;
    assert(total * k >= 0) by (nonlinear_arith)
        requires 0 <= total && k >= 1;
    assert((total * steps + steps - 1) / steps == total) by (nonlinear_arith)
        requires 1 <= steps && 0 <= total;
    vstd::arithmetic::div_mod::lemma_div_is_ordered(
        total * k + steps - 1,
        total * steps + steps - 1,
        steps,
    );
    vstd::arithmetic::div_mod::lemma_div_is_ordered(0, total * k + steps - 1, steps);
}

proof fn lemma_linear_target_monotone(total: int, steps: int, k: int)
    requires
        1 <= steps,
        0 <= total,
        1 <= k < steps,
    ensures
        spec_linear_target(total, steps, k) <= spec_linear_target(total, steps, k + 1),
{
    assert(total * k <= total * (k + 1)) by (nonlinear_arith)
        requires 0 <= total;
    vstd::arithmetic::div_mod::lemma_div_is_ordered(
        total * k + steps - 1,
        total * (k + 1) + steps - 1,
        steps,
    );
}

proof fn lemma_linear_target_full(total: int, steps: int)
    requires
        1 <= steps,
        0 <= total,
    ensures
        spec_linear_target(total, steps, steps) == total,
{
    assert((total * steps + steps - 1) / steps == total) by (nonlinear_arith)
        requires 1 <= steps && 0 <= total;
}

/// The percentages an exponential rollout walks through: start at the
/// initial value, double each step, clamp at 100, stop at 100 or when
/// the steps run out.
pub open spec fn spec_exponential(p: u32, steps: u32) -> Seq<u32>
    decreases steps,
{
    if steps == 0 {
        Seq::empty()
    } else if p >= 100 {
        seq![100u32]
    } else {
        seq![p] + spec_exponential((2 * p) as u32, (steps - 1) as u32)
    }
}

/// The per-step percentages of an exponential rollout.
pub fn exponential_percentages(initial: u32, steps: u32) -> (r: Vec<u32>)
    ensures
        r@ == spec_exponential(initial, steps),
    decreases steps,
{
    if steps == 0 {
        let r: Vec<u32> = Vec::new();
        proof {
            assert(r@ =~= spec_exponential(initial, steps));
        }
        r
    } else if initial >= 100 {
        let mut r: Vec<u32> = Vec::new();
        r.push(100);
        proof {
            assert(r@ =~= spec_exponential(initial, steps));
        }
        r
    } else {
        let mut r: Vec<u32> = Vec::new();
        r.push(initial);
        let mut rest = exponential_percentages(2 * initial, steps - 1);
        r.append(&mut rest);
        proof {
            assert(r@ =~= spec_exponential(initial, steps));
        }
        r
    }
}

/// An initial percentage at or above 100 completes after one step.
pub proof fn lemma_exponential_completes_at_once(initial: u32, steps: u32)
    requires
        steps >= 1,
        initial >= 100,
    ensures
        spec_exponential(initial, steps) =~= seq![100u32],
{
}

/// Every percentage of an exponential schedule is at most 100, and
/// the schedule never outlives its step budget.
pub proof fn lemma_exponential_bounded(p: u32, steps: u32)
    ensures
        spec_exponential(p, steps).len() <= steps,
        forall|i: int|
            0 <= i < spec_exponential(p, steps).len() ==> (#[trigger] spec_exponential(
                p, steps)[i]) <= 100,
    decreases steps,
{
    if steps == 0 {
    } else if p >= 100 {
    } else {
        lemma_exponential_bounded((2 * p) as u32, (steps - 1) as u32);
    }
}

/// What the adjustment primitive asks the runtime to do to bring a
/// population to its target size.
pub enum AdjustAction {
    /// Create this many containers of the declared image.
    Create { count: usize },
    /// Force-remove exactly these containers.
    Remove { victims: Vec<String> },
    /// The population already has its target size.
    Keep,
}

/// The adjustment owed for a listing and a target size: create the
/// shortfall, or remove the first-listed excess containers.
pub open spec fn adjust_matches(existing: Seq<String>, target: int, action: AdjustAction) -> bool {
    if existing.len() < target {
        action matches AdjustAction::Create { count } && count == target - existing.len()
    } else if existing.len() > target {
        action matches AdjustAction::Remove { victims } && victims@ == existing.take(
            existing.len() - target)
    } else {
        action is Keep
    }
}

/// Plans one population adjustment step.
pub fn plan_adjustment(existing: &Vec<String>, target: usize) -> (action: AdjustAction)
    ensures
        adjust_matches(existing@, target as int, action),
{
    if existing.len() < target {
        AdjustAction::Create { count: target - existing.len() }
    } else if existing.len() > target {
        let excess = existing.len() - target;
        let mut victims: Vec<String> = Vec::new();
        let mut i: usize = 0;
        while i < excess
            invariant
                excess <= existing@.len(),
                i <= excess,
                victims@.len() == i,
                forall|j: int| 0 <= j < i ==> (#[trigger] victims@[j]) == existing@[j],
            decreases excess - i,
        {
            victims.push(existing[i].clone());
            i = i + 1;
        }
        proof {
            assert(victims@ =~= existing@.take(existing@.len() - target));
        }
        AdjustAction::Remove { victims }
    } else {
        AdjustAction::Keep
    }
}

/// The container name of one version: `{prefix}{version}`.
pub fn versioned_container_name(prefix: &str, version: &str) -> (name: String)
    ensures
        name@ == prefix@ + version@,
{
    let mut name = prefix.to_owned();
    name.append(version);
    name
}

/// The container name of one population index: `{base}-{idx}`.
pub fn indexed_container_name(base: &str, idx: u64) -> (name: String)
    ensures
        name@ == base@ + "-"@ + spec_decimal(idx as nat),
{
    let mut name = base.to_owned();
    name.append("-");
    let digits = u64_to_string(idx);
    name.append(digits.as_str());
    name
}

/// The routing pointer between the two versions of an application.
pub struct LoadBalancer {
    pub current_version: String,
    pub old_version: String,
    pub new_version: String,
}

impl LoadBalancer {
    /// Routing starts on the old version.
    pub fn new(old_version: String, new_version: String) -> (lb: LoadBalancer)
        ensures
            lb.current_version@ == old_version@,
            lb.old_version == old_version,
            lb.new_version == new_version,
    {
        LoadBalancer { current_version: old_version.clone(), old_version, new_version }
    }

    /// Flips the pointer to the other version and returns the version
    /// now routed to.
    pub fn get_next_version(&mut self) -> (v: String)
        ensures
            old(self).current_version@ == old(self).old_version@ ==> final(self).current_version@
                == old(self).new_version@,
            old(self).current_version@ != old(self).old_version@ ==> final(self).current_version@
                == old(self).old_version@,
            v@ == final(self).current_version@,
            final(self).old_version == old(self).old_version,
            final(self).new_version == old(self).new_version,
    {
        if self.current_version == self.old_version {
            self.current_version = self.new_version.clone();
            self.new_version.clone()
        } else {
            self.current_version = self.old_version.clone();
            self.old_version.clone()
        }
    }
}

/// The phases a blue/green rollout passes through.
#[derive(Clone, Copy, Debug, PartialEq, Eq, Structural)]
pub enum BlueGreenPhase {
    Blue,
    DeployingGreen,
    SwitchingTraffic,
    Committed,
    RolledBack,
}

/// What the blue/green executor asks the runtime to do next.
#[derive(Clone, Copy, Debug, PartialEq, Eq, Structural)]
pub enum BlueGreenAction {
    /// Create and start the new-version container, then report back.
    CreateAndStart,
    /// Probe the new version's health endpoint, then report back.
    Probe,
    /// Nothing left to do.
    Done,
}

/// One blue/green rollout in flight: the phase and the routing state.
pub struct BlueGreenRollout {
    pub phase: BlueGreenPhase,
    pub load_balancer: LoadBalancer,
}

impl BlueGreenRollout {
    /// The rollout's invariant: routing points at one of the two
    /// versions; once committed it points at the new version, and
    /// after a rollback at the old one.
    pub open spec fn wf(&self) -> bool {
        &&& (self.load_balancer.current_version@ == self.load_balancer.old_version@
            || self.load_balancer.current_version@ == self.load_balancer.new_version@)
        &&& (self.phase == BlueGreenPhase::RolledBack ==> self.load_balancer.current_version@
            == self.load_balancer.old_version@)
    }

    /// Starts a rollout; routing stays on the old version until the
    /// switch commits.
    pub fn new(old_version: String, new_version: String) -> (r: BlueGreenRollout)
        ensures
            r.wf(),
            r.phase == BlueGreenPhase::DeployingGreen,
            r.load_balancer.current_version@ == old_version@,
            r.load_balancer.old_version == old_version,
            r.load_balancer.new_version == new_version,
    {
        BlueGreenRollout {
            phase: BlueGreenPhase::DeployingGreen,
            load_balancer: LoadBalancer::new(old_version, new_version),
        }
    }

    /// The runtime reported whether the new-version container runs:
    /// create it first if not, probe it otherwise.
    pub fn on_container_status(&mut self, running: bool) -> (a: BlueGreenAction)
        requires
            old(self).wf(),
            old(self).phase == BlueGreenPhase::DeployingGreen,
        ensures
            final(self).wf(),
            running ==> final(self).phase == BlueGreenPhase::SwitchingTraffic && a
                == BlueGreenAction::Probe,
            !running ==> final(self).phase == BlueGreenPhase::DeployingGreen && a
                == BlueGreenAction::CreateAndStart,
            final(self).load_balancer == old(self).load_balancer,
    {
        if running {
            self.phase = BlueGreenPhase::SwitchingTraffic;
            BlueGreenAction::Probe
        } else {
            BlueGreenAction::CreateAndStart
        }
    }

    /// The probe came back.  Success flips routing to the new version
    /// and commits; failure leaves routing on the old version and
    /// rolls back.
    pub fn on_probe(&mut self, ok: bool)
        requires
            old(self).wf(),
            old(self).phase == BlueGreenPhase::SwitchingTraffic,
            old(self).load_balancer.old_version@ != old(self).load_balancer.new_version@,
        ensures
            final(self).wf(),
            ok ==> final(self).phase == BlueGreenPhase::Committed && final(
                self).load_balancer.current_version@ == old(self).load_balancer.new_version@,
            !ok ==> final(self).phase == BlueGreenPhase::RolledBack && final(
                self).load_balancer.current_version@ == old(self).load_balancer.old_version@,
            final(self).load_balancer.old_version == old(self).load_balancer.old_version,
            final(self).load_balancer.new_version == old(self).load_balancer.new_version,
    {
        if ok {
            self.phase = BlueGreenPhase::Committed;
            self.load_balancer.current_version = self.load_balancer.new_version.clone();
        } else {
            self.phase = BlueGreenPhase::RolledBack;
            self.load_balancer.current_version = self.load_balancer.old_version.clone();
        }
    }

    /// Rolls back to a version: routing returns to the old version
    /// and every container of the other version is up for cleanup.
    pub fn rollback_to_old(&mut self)
        requires
            old(self).wf(),
        ensures
            final(self).wf(),
            final(self).phase == BlueGreenPhase::RolledBack,
            final(self).load_balancer.current_version@ == old(self).load_balancer.old_version@,
            final(self).load_balancer.old_version == old(self).load_balancer.old_version,
            final(self).load_balancer.new_version == old(self).load_balancer.new_version,
    {
        self.phase = BlueGreenPhase::RolledBack;
        self.load_balancer.current_version = self.load_balancer.old_version.clone();
    }
}

/// Whether a runtime listing names a container.  The runtime reports
/// names with a leading slash.
pub open spec fn spec_container_listed(names: Seq<String>, container_name: Seq<char>) -> bool {
    exists|i: int| 0 <= i < names.len() && (#[trigger] names[i])@ == seq!['/'] + container_name
}

/// Looks for a container in a runtime listing.
pub fn container_listed(names: &Vec<String>, container_name: &str) -> (r: bool)
    ensures
        r == spec_container_listed(names@, container_name@),
{
    let mut expected = "/".to_owned();
    expected.append(container_name);
    proof {
        reveal_strlit("/");
        assert(expected@ =~= seq!['/'] + container_name@);
    }
    let mut i: usize = 0;
    while i < names.len()
        invariant
            expected@ == seq!['/'] + container_name@,
            i <= names@.len(),
            forall|j: int| 0 <= j < i ==> (#[trigger] names@[j])@ != expected@,
        decreases names@.len() - i,
    {
        if crate::strutil::str_eq(names[i].as_str(), expected.as_str()) {
            return true;
        }
        i = i + 1;
    }
    false
}

/// The containers cleanup must remove when committing to one name:
/// everything in the listing that is not that container.
pub open spec fn cleanup_pred(keep_name: Seq<char>) -> spec_fn(String) -> bool {
    |n: String| n@ != keep_name
}

/// Plans a cleanup: every listed container not belonging to the kept
/// name is removed.
pub fn plan_cleanup(names: &Vec<String>, keep_name: &str) -> (victims: Vec<String>)
    ensures
        victims@ == names@.filter(cleanup_pred(keep_name@)),
{
    let mut victims: Vec<String> = Vec::new();
    let mut i: usize = 0;
    while i < names.len()
        invariant
            i <= names@.len(),
            victims@ == names@.take(i as int).filter(cleanup_pred(keep_name@)),
        decreases names@.len() - i,
    {
        let ghost prefix = names@.take(i as int);
        if !crate::strutil::str_eq(names[i].as_str(), keep_name) {
            victims.push(names[i].clone());
        }
        proof {
            let x = names@[i as int];
            assert(names@.take(i + 1 as int) =~= prefix.push(x));
            prefix.lemma_filter_push(x, cleanup_pred(keep_name@));
            assert(victims@ =~= names@.take(i + 1 as int).filter(cleanup_pred(keep_name@)));
        }
        i = i + 1;
    }
    proof {
        assert(names@.take(names@.len() as int) =~= names@);
    }
    victims
}

/// The fixed probe address of each version during a blue/green
/// rollout, `None` for a version that is neither side.
pub open spec fn spec_version_addr(v: Seq<char>) -> Option<Seq<char>> {
    if v == "old"@ {
        Some("http://127.0.0.1:7000"@)
    } else if v == "new"@ {
        Some("http://127.0.0.1:7001"@)
    } else {
        None
    }
}

/// The probe address of a version.
pub fn get_version_addr(version: &str) -> (r: Option<&'static str>)
    ensures
        r matches Some(a) ==> spec_version_addr(version@) == Some(a@),
        r is None ==> spec_version_addr(version@) is None,
{
    proof {
        reveal_strlit("old");
        reveal_strlit("new");
        assert("old"@[0] == 'o');
        assert("new"@[0] == 'n');
    }
    if str_eq(version, "old") {
        Some("http://127.0.0.1:7000")
    } else if str_eq(version, "new") {
        Some("http://127.0.0.1:7001")
    } else {
        None
    }
}

/// Why a rollout request was rejected.
#[derive(Clone, Copy, Debug, PartialEq, Eq, Structural)]
pub enum RolloutError {
    /// Another rollout of the same population is in flight.
    RolloutInProgress,
    /// The strategy's numbers make no schedule.
    InvalidStrategy,
}

/// A strategy the executor can run: schedules need at least one step,
/// and an exponential start must be positive.
pub open spec fn strategy_valid(s: RolloutStrategy) -> bool {
    match s {
        RolloutStrategy::BlueGreen { .. } => true,
        RolloutStrategy::Linear { steps, interval_seconds } => steps >= 1 && interval_seconds >= 0,
        RolloutStrategy::Exponential { initial_percentage, steps, interval_seconds } =>
            initial_percentage >= 1 && steps >= 1 && interval_seconds >= 0,
    }
}

/// Checks a declared strategy before running it.
pub fn validate_strategy(s: &RolloutStrategy) -> (r: Result<(), RolloutError>)
    ensures
        (r is Ok) == strategy_valid(*s),
        r matches Err(e) ==> e == RolloutError::InvalidStrategy,
{
    match s {
        RolloutStrategy::BlueGreen { .. } => Ok(()),
        RolloutStrategy::Linear { steps, interval_seconds } => {
            if *steps >= 1 && *interval_seconds >= 0 {
                Ok(())
            } else {
                Err(RolloutError::InvalidStrategy)
            }
        },
        RolloutStrategy::Exponential { initial_percentage, steps, interval_seconds } => {
            if *initial_percentage >= 1 && *steps >= 1 && *interval_seconds >= 0 {
                Ok(())
            } else {
                Err(RolloutError::InvalidStrategy)
            }
        },
    }
}

/// Serializes rollouts per population: a second request while one is
/// in flight is refused.
pub struct RolloutLock {
    pub in_progress: bool,
}

impl RolloutLock {
    /// A free lock.
    pub fn new() -> (g: RolloutLock)
        ensures
            !g.in_progress,
    {
        RolloutLock { in_progress: false }
    }

    /// Claims the lock; fails with `RolloutInProgress` exactly when a
    /// rollout already holds it.
    pub fn try_start(&mut self) -> (r: Result<(), RolloutError>)
        ensures
            (r is Ok) == !old(self).in_progress,
            r matches Err(e) ==> e == RolloutError::RolloutInProgress,
            final(self).in_progress,
    {
        if self.in_progress {
            Err(RolloutError::RolloutInProgress)
        } else {
            self.in_progress = true;
            Ok(())
        }
    }

    /// Releases the lock when the rollout ends, however it ends.
    pub fn finish(&mut self)
        ensures
            !final(self).in_progress,
    {
        self.in_progress = false;
    }
}

} // verus!
