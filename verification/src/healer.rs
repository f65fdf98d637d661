//! Container self-healing: the supervisor state machine that watches a
//! worker's runtime, restarts or recreates dead containers with a
//! bounded number of attempts, and keeps a bounded report of healing
//! events.
//!
//! The runtime calls themselves (list, inspect, restart, remove,
//! create) happen outside; this module holds the decisions, the
//! attempt bookkeeping, the backoff, and the event ring, and proves
//! their invariants: attempts never pass the bound, and no event is
//! recorded twice for the same container and timestamp.

use vstd::prelude::*;
use crate::strutil::str_eq;

verus! {

/// After this many failed heal attempts a container is left alone.
pub const MAX_HEAL_ATTEMPTS: u32 = 3;

/// The event ring keeps at most this many healing events.
pub const REPORT_CAPACITY: usize = 1024;

/// The poll loop's starting pause, in milliseconds.
pub const INITIAL_BACKOFF_MS: u64 = 1000;

/// The poll loop never pauses longer than this, in milliseconds.
pub const MAX_BACKOFF_MS: u64 = 60000;

/// Pause between containers of a rolling update, in milliseconds.
pub const ROLLING_PAUSE_MS: u64 = 10000;

/// The state of a container as the runtime reports it.
#[derive(Clone, Copy, Debug, PartialEq, Eq, Structural)]
pub enum ContainerState {
    Created,
    Running,
    Dead,
    Removed,
}

/// A worker-local view of one runtime container.
#[derive(Debug, Clone)]
pub struct ContainerRecord {
    pub id: String,
    pub name: String,
    pub image: String,
    pub state: ContainerState,
    pub version_tag: String,
    pub heal_attempts: u32,
}

/// What happened to a container when the healer acted on it.
#[derive(Clone, Copy, Debug, PartialEq, Eq, Structural)]
pub enum HealEventKind {
    Restarted,
    Recreated,
    SkippedMaxAttempts,
}

/// One entry of the healing report ring.
#[derive(Debug, Clone)]
pub struct HealingEvent {
    pub container_id: String,
    /// RFC 3339 text, supplied by the clock at the call site.
    pub timestamp: String,
    pub kind: HealEventKind,
}

/// The wire shape of one healing event.
#[derive(Debug, Clone)]
pub struct HealingReport {
    pub container_id: String,
    pub timestamp: String,
    pub event: String,
}

/// The message text of an event kind on the wire.
pub open spec fn spec_kind_message(k: HealEventKind) -> Seq<char> {
    match k {
        HealEventKind::Restarted => "Container was restarted"@,
        HealEventKind::Recreated => "Container was re-created"@,
        HealEventKind::SkippedMaxAttempts => "Skipped: max heal attempts reached"@,
    }
}

/// Renders an event kind as its wire message.
pub fn kind_message(k: HealEventKind) -> (s: &'static str)
    ensures
        s@ == spec_kind_message(k),
{
    match k {
        HealEventKind::Restarted => "Container was restarted",
        HealEventKind::Recreated => "Container was re-created",
        HealEventKind::SkippedMaxAttempts => "Skipped: max heal attempts reached",
    }
}

/// One row of the attempt table.
#[derive(Debug, Clone)]
pub struct AttemptEntry {
    pub id: String,
    pub count: u32,
}

/// The attempt count a table holds for a container, zero when absent.
pub open spec fn spec_attempts_of(s: Seq<AttemptEntry>, id: Seq<char>) -> u32
    decreases s.len(),
{
    if s.len() == 0 {
        0
    } else if s.last().id@ == id {
        s.last().count
    } else {
        spec_attempts_of(s.drop_last(), id)
    }
}

/// Each container has at most one row.
pub open spec fn attempts_unique(s: Seq<AttemptEntry>) -> bool {
    forall|i: int, j: int| 0 <= i < j < s.len() ==> (#[trigger] s[i].id@) != (#[trigger] s[j].id@)
}

/// Every attempt count respects the bound.
pub open spec fn attempts_bounded(s: Seq<AttemptEntry>) -> bool {
    forall|i: int| 0 <= i < s.len() ==> (#[trigger] s[i].count) <= MAX_HEAL_ATTEMPTS
}

/// Two events collide when they name the same container and timestamp.
pub open spec fn events_collide(a: HealingEvent, b: HealingEvent) -> bool {
    a.container_id@ == b.container_id@ && a.timestamp@ == b.timestamp@
}

/// No event appears twice for the same (container, timestamp).
pub open spec fn events_nodup(s: Seq<HealingEvent>) -> bool {
    forall|i: int, j: int| 0 <= i < j < s.len() ==> !(#[trigger] events_collide(s[i], s[j]))
}

/// Whether an event for the same (container, timestamp) is already in
/// the ring.
pub open spec fn has_collision(s: Seq<HealingEvent>, ev: HealingEvent) -> bool {
    exists|i: int| 0 <= i < s.len() && events_collide(#[trigger] s[i], ev)
}

/// The ring after recording one event: dropped when it collides with
/// a recorded one, appended otherwise, evicting the oldest entry when
/// the ring is full.
pub open spec fn spec_record(s: Seq<HealingEvent>, ev: HealingEvent) -> Seq<HealingEvent> {
    if has_collision(s, ev) {
        s
    } else if s.len() < REPORT_CAPACITY {
        s.push(ev)
    } else {
        s.skip(1).push(ev)
    }
}

/// The supervisor's whole state.
pub struct HealerState {
    /// Whether the poll loop is on.
    pub healing: bool,
    /// Current pause of the poll loop, in milliseconds.
    pub backoff_ms: u64,
    /// Containers healed since start; monotone.
    pub healed_total: u64,
    /// Failed heal attempts per container.
    pub attempts: Vec<AttemptEntry>,
    /// The bounded healing-event ring.
    pub events: Vec<HealingEvent>,
}

impl HealerState {
    /// The state invariant: attempts bounded and uniquely keyed, the
    /// ring bounded and free of duplicates, the backoff within range.
    pub open spec fn wf(&self) -> bool {
        &&& attempts_unique(self.attempts@)
        &&& attempts_bounded(self.attempts@)
        &&& self.events@.len() <= REPORT_CAPACITY
        &&& events_nodup(self.events@)
        &&& INITIAL_BACKOFF_MS <= self.backoff_ms <= MAX_BACKOFF_MS
    }

    /// A fresh supervisor: healing off, nothing attempted, no events.
    pub fn new() -> (s: HealerState)
        ensures
            s.wf(),
            !s.healing,
            s.backoff_ms == INITIAL_BACKOFF_MS,
            s.healed_total == 0,
            s.attempts@.len() == 0,
            s.events@.len() == 0,
    {
        HealerState {
            healing: false,
            backoff_ms: INITIAL_BACKOFF_MS,
            healed_total: 0,
            attempts: Vec::new(),
            events: Vec::new(),
        }
    }

    /// Turns the poll loop on.
    pub fn start_healing(&mut self)
        requires
            old(self).wf(),
        ensures
            final(self).wf(),
            final(self).healing,
            final(self).backoff_ms == old(self).backoff_ms,
            final(self).healed_total == old(self).healed_total,
            final(self).attempts == old(self).attempts,
            final(self).events == old(self).events,
    {
        self.healing = true;
    }

    /// Turns the poll loop off; it exits at the next iteration check.
    pub fn stop_healing(&mut self)
        requires
            old(self).wf(),
        ensures
            final(self).wf(),
            !final(self).healing,
            final(self).backoff_ms == old(self).backoff_ms,
            final(self).healed_total == old(self).healed_total,
            final(self).attempts == old(self).attempts,
            final(self).events == old(self).events,
    {
        self.healing = false;
    }

    /// The attempt count recorded for a container.
    pub fn get_attempts(&self, id: &str) -> (n: u32)
        requires
            self.wf(),
        ensures
            n == spec_attempts_of(self.attempts@, id@),
    {
        let mut i: usize = 0;
        while i < self.attempts.len()
            invariant
                self.wf(),
                i <= self.attempts@.len(),
                forall|j: int| 0 <= j < i ==> (#[trigger] self.attempts@[j].id@) != id@,
            decreases self.attempts@.len() - i,
        {
            if str_eq(self.attempts[i].id.as_str(), id) {
                proof {
                    lemma_attempts_at_index(self.attempts@, i as int, id@);
                }
                return self.attempts[i].count;
            }
            i = i + 1;
        }
        proof {
            lemma_attempts_absent(self.attempts@, id@);
        }
        0
    }

    /// Writes the attempt count for a container, leaving every other
    /// row as it was.
    fn set_attempts(&mut self, id: &str, count: u32)
        requires
            old(self).wf(),
            count <= MAX_HEAL_ATTEMPTS,
        ensures
            final(self).wf(),
            spec_attempts_of(final(self).attempts@, id@) == count,
            forall|x: Seq<char>|
                x != id@ ==> spec_attempts_of(final(self).attempts@, x) == spec_attempts_of(
                    old(self).attempts@, x),
            final(self).healing == old(self).healing,
            final(self).backoff_ms == old(self).backoff_ms,
            final(self).healed_total == old(self).healed_total,
            final(self).events == old(self).events,
    {
        let ghost pre = *self;
        let ghost s0 = self.attempts@;
        let mut i: usize = 0;
        while i < self.attempts.len()
            invariant
                *self == pre,
                pre == *old(self),
                pre.wf(),
                self.attempts@ == s0,
                attempts_unique(s0),
                attempts_bounded(s0),
                count <= MAX_HEAL_ATTEMPTS,
                i <= s0.len(),
                forall|j: int| 0 <= j < i ==> (#[trigger] s0[j].id@) != id@,
            decreases s0.len() - i,
        {
            if str_eq(self.attempts[i].id.as_str(), id) {
                let entry = AttemptEntry { id: id.to_owned(), count };
                let ghost eg = entry;
                self.attempts[i] = entry;
                proof {
                    lemma_attempts_update(s0, i as int, eg);
                    assert(self.attempts@ =~= s0.update(i as int, eg));
                    lemma_attempts_update_all(s0, i as int, eg);
                    assert forall|j: int| 0 <= j < self.attempts@.len() implies (#[trigger]
                        self.attempts@[j].count) <= MAX_HEAL_ATTEMPTS by {
                        if j != i {
                            assert(self.attempts@[j] == s0[j]);
                        }
                    }
                }
                return;
            }
            i = i + 1;
        }
        let entry = AttemptEntry { id: id.to_owned(), count };
        self.attempts.push(entry);
        proof {
            let s1 = self.attempts@;
            assert(s1.last().id@ == id@);
            assert(s1.drop_last() =~= s0);
            assert(spec_attempts_of(s1, id@) == count);
            assert forall|x: Seq<char>| x != id@ implies spec_attempts_of(s1, x)
                == spec_attempts_of(s0, x) by {
                assert(s1.drop_last() =~= s0);
            }
            assert forall|a: int, b: int| 0 <= a < b < s1.len() implies (#[trigger] s1[a].id@)
                != (#[trigger] s1[b].id@) by {
                if b == s1.len() - 1 {
                    assert(s1[a].id@ != id@);
                }
            }
        }
    }

    /// Records one healing event in the bounded ring, dropping it if
    /// an event with the same container and timestamp is already
    /// there.
    fn record_event(&mut self, ev: HealingEvent)
        requires
            old(self).wf(),
        ensures
            final(self).wf(),
            final(self).events@ == spec_record(old(self).events@, ev),
            final(self).healing == old(self).healing,
            final(self).backoff_ms == old(self).backoff_ms,
            final(self).healed_total == old(self).healed_total,
            final(self).attempts == old(self).attempts,
    {
        let ghost pre = *self;
        let ghost s0 = self.events@;
        let mut i: usize = 0;
        while i < self.events.len()
            invariant
                *self == pre,
                pre == *old(self),
                pre.wf(),
                self.events@ == s0,
                i <= s0.len(),
                forall|j: int| 0 <= j < i ==> !events_collide(#[trigger] s0[j], ev),
            decreases s0.len() - i,
        {
            let same_id = str_eq(self.events[i].container_id.as_str(), ev.container_id.as_str());
            let same_ts = str_eq(self.events[i].timestamp.as_str(), ev.timestamp.as_str());
            if same_id && same_ts {
                proof {
                    assert(events_collide(s0[i as int], ev));
                    assert(has_collision(s0, ev));
                }
                return;
            }
            i = i + 1;
        }
        proof {
            assert(!has_collision(s0, ev));
        }
        if self.events.len() >= REPORT_CAPACITY {
            self.events.remove(0);
            proof {
                assert(self.events@ =~= s0.skip(1));
            }
        }
        let ghost s1 = self.events@;
        self.events.push(ev);
        proof {
            assert forall|a: int, b: int| 0 <= a < b < self.events@.len() implies !events_collide(
                #[trigger] self.events@[a], #[trigger] self.events@[b]) by {
                if b == self.events@.len() - 1 {
                    if s1 == s0 {
                        assert(!events_collide(s0[a], ev));
                    } else {
                        assert(self.events@[a] == s0[a + 1]);
                        assert(!events_collide(s0[a + 1], ev));
                    }
                } else {
                    if s1 == s0 {
                    } else {
                        assert(self.events@[a] == s0[a + 1] && self.events@[b] == s0[b + 1]);
                    }
                }
            }
            assert(self.events@ =~= spec_record(s0, ev));
        }
    }

    /// A restart succeeded: record it, reset the container's attempt
    /// count, and bump the healed counter.
    pub fn on_restart_success(&mut self, container_id: String, timestamp: String)
        requires
            old(self).wf(),
        ensures
            final(self).wf(),
            final(self).events@ == spec_record(old(self).events@, (HealingEvent {
                container_id,
                timestamp,
                kind: HealEventKind::Restarted,
            })),
            spec_attempts_of(final(self).attempts@, container_id@) == 0,
            final(self).healed_total >= old(self).healed_total,
            old(self).healed_total < u64::MAX ==> final(self).healed_total == old(self).healed_total + 1,
            final(self).healing == old(self).healing,
            final(self).backoff_ms == old(self).backoff_ms,
    {
        let id_copy = container_id.clone();
        self.record_event(HealingEvent {
            container_id,
            timestamp,
            kind: HealEventKind::Restarted,
        });
        self.set_attempts(id_copy.as_str(), 0);
        if self.healed_total < u64::MAX {
            self.healed_total = self.healed_total + 1;
        }
    }

    /// A recreate succeeded: record it, reset the attempt count, bump
    /// the healed counter.
    pub fn on_recreate_success(&mut self, container_id: String, timestamp: String)
        requires
            old(self).wf(),
        ensures
            final(self).wf(),
            final(self).events@ == spec_record(old(self).events@, (HealingEvent {
                container_id,
                timestamp,
                kind: HealEventKind::Recreated,
            })),
            spec_attempts_of(final(self).attempts@, container_id@) == 0,
            final(self).healed_total >= old(self).healed_total,
            old(self).healed_total < u64::MAX ==> final(self).healed_total == old(self).healed_total + 1,
            final(self).healing == old(self).healing,
            final(self).backoff_ms == old(self).backoff_ms,
    {
        let id_copy = container_id.clone();
        self.record_event(HealingEvent {
            container_id,
            timestamp,
            kind: HealEventKind::Recreated,
        });
        self.set_attempts(id_copy.as_str(), 0);
        if self.healed_total < u64::MAX {
            self.healed_total = self.healed_total + 1;
        }
    }

    /// Recreate failed too: charge one more attempt to the container,
    /// up to the bound, and leave it for the next tick.
    pub fn on_recreate_failure(&mut self, container_id: &str)
        requires
            old(self).wf(),
        ensures
            final(self).wf(),
            spec_attempts_of(final(self).attempts@, container_id@) == if spec_attempts_of(
                old(self).attempts@, container_id@) < MAX_HEAL_ATTEMPTS {
                (spec_attempts_of(old(self).attempts@, container_id@) + 1) as u32
            } else {
                spec_attempts_of(old(self).attempts@, container_id@)
            },
            forall|x: Seq<char>|
                x != container_id@ ==> spec_attempts_of(final(self).attempts@, x) == spec_attempts_of(
                    old(self).attempts@, x),
            final(self).events == old(self).events,
            final(self).healed_total == old(self).healed_total,
            final(self).healing == old(self).healing,
            final(self).backoff_ms == old(self).backoff_ms,
    {
        let n = self.get_attempts(container_id);
        if n < MAX_HEAL_ATTEMPTS {
            self.set_attempts(container_id, n + 1);
        }
    }

    /// The healer passed a container over because its attempts are
    /// exhausted: record the skip.
    pub fn on_skip_max_attempts(&mut self, container_id: String, timestamp: String)
        requires
            old(self).wf(),
        ensures
            final(self).wf(),
            final(self).events@ == spec_record(old(self).events@, (HealingEvent {
                container_id,
                timestamp,
                kind: HealEventKind::SkippedMaxAttempts,
            })),
            final(self).attempts == old(self).attempts,
            final(self).healed_total == old(self).healed_total,
            final(self).healing == old(self).healing,
            final(self).backoff_ms == old(self).backoff_ms,
    {
        self.record_event(HealingEvent {
            container_id,
            timestamp,
            kind: HealEventKind::SkippedMaxAttempts,
        });
    }

    /// Listing containers failed: double the poll pause, up to the cap.
    pub fn on_list_failure(&mut self)
        requires
            old(self).wf(),
        ensures
            final(self).wf(),
            final(self).backoff_ms == if 2 * old(self).backoff_ms <= MAX_BACKOFF_MS {
                2 * old(self).backoff_ms
            } else {
                MAX_BACKOFF_MS as int
            },
            final(self).healing == old(self).healing,
            final(self).healed_total == old(self).healed_total,
            final(self).attempts == old(self).attempts,
            final(self).events == old(self).events,
    {
        if self.backoff_ms <= MAX_BACKOFF_MS / 2 {
            self.backoff_ms = self.backoff_ms * 2;
        } else {
            self.backoff_ms = MAX_BACKOFF_MS;
        }
    }

    /// Listing succeeded: the poll pause falls back to its start value.
    pub fn on_list_success(&mut self)
        requires
            old(self).wf(),
        ensures
            final(self).wf(),
            final(self).backoff_ms == INITIAL_BACKOFF_MS,
            final(self).healing == old(self).healing,
            final(self).healed_total == old(self).healed_total,
            final(self).attempts == old(self).attempts,
            final(self).events == old(self).events,
    {
        self.backoff_ms = INITIAL_BACKOFF_MS;
    }

    /// A snapshot of the healing report in wire shape.
    pub fn healing_report(&self) -> (out: Vec<HealingReport>)
        requires
            self.wf(),
        ensures
            out@.len() == self.events@.len(),
            forall|k: int|
                0 <= k < out@.len() ==> (#[trigger] out@[k]).container_id@
                    == self.events@[k].container_id@ && out@[k].timestamp@
                    == self.events@[k].timestamp@ && out@[k].event@ == spec_kind_message(
                    self.events@[k].kind),
    {
        let mut out: Vec<HealingReport> = Vec::new();
        let mut i: usize = 0;
        while i < self.events.len()
            invariant
                i <= self.events@.len(),
                out@.len() == i,
                forall|k: int|
                    0 <= k < i ==> (#[trigger] out@[k]).container_id@
                        == self.events@[k].container_id@ && out@[k].timestamp@
                        == self.events@[k].timestamp@ && out@[k].event@ == spec_kind_message(
                        self.events@[k].kind),
            decreases self.events@.len() - i,
        {
            let ev = &self.events[i];
            out.push(HealingReport {
                container_id: ev.container_id.clone(),
                timestamp: ev.timestamp.clone(),
                event: kind_message(ev.kind).to_owned(),
            });
            i = i + 1;
        }
        out
    }
}

impl HealerState {
    /// Records a successful restart stamped with the current time.
    /// Whatever the clock said, the event lands in the ring under
    /// this container id and the attempt count resets.
    pub fn on_restart_success_now(&mut self, container_id: String)
        requires
            old(self).wf(),
        ensures
            final(self).wf(),
            spec_attempts_of(final(self).attempts@, container_id@) == 0,
            final(self).healed_total >= old(self).healed_total,
            exists|ts: String|
                final(self).events@ == spec_record(old(self).events@, (HealingEvent {
                    container_id,
                    timestamp: ts,
                    kind: HealEventKind::Restarted,
                })),
    {
        let ts = crate::stamp::now_rfc3339();
        let ghost ts_g = ts;
        self.on_restart_success(container_id, ts);
        proof {
            assert(self.events@ == spec_record(old(self).events@, (HealingEvent {
                container_id,
                timestamp: ts_g,
                kind: HealEventKind::Restarted,
            })));
        }
    }

    /// Records a successful recreate stamped with the current time.
    pub fn on_recreate_success_now(&mut self, container_id: String)
        requires
            old(self).wf(),
        ensures
            final(self).wf(),
            spec_attempts_of(final(self).attempts@, container_id@) == 0,
            final(self).healed_total >= old(self).healed_total,
            exists|ts: String|
                final(self).events@ == spec_record(old(self).events@, (HealingEvent {
                    container_id,
                    timestamp: ts,
                    kind: HealEventKind::Recreated,
                })),
    {
        let ts = crate::stamp::now_rfc3339();
        let ghost ts_g = ts;
        self.on_recreate_success(container_id, ts);
        proof {
            assert(self.events@ == spec_record(old(self).events@, (HealingEvent {
                container_id,
                timestamp: ts_g,
                kind: HealEventKind::Recreated,
            })));
        }
    }

    /// Records a skip stamped with the current time.
    pub fn on_skip_max_attempts_now(&mut self, container_id: String)
        requires
            old(self).wf(),
        ensures
            final(self).wf(),
            final(self).attempts == old(self).attempts,
            final(self).healed_total == old(self).healed_total,
            exists|ts: String|
                final(self).events@ == spec_record(old(self).events@, (HealingEvent {
                    container_id,
                    timestamp: ts,
                    kind: HealEventKind::SkippedMaxAttempts,
                })),
    {
        let ts = crate::stamp::now_rfc3339();
        let ghost ts_g = ts;
        self.on_skip_max_attempts(container_id, ts);
        proof {
            assert(self.events@ == spec_record(old(self).events@, (HealingEvent {
                container_id,
                timestamp: ts_g,
                kind: HealEventKind::SkippedMaxAttempts,
            })));
        }
    }

    /// The healer's counters in Prometheus exposition text.
    pub fn metrics_text(&self) -> (s: String)
        ensures
            s@ == crate::metrics::spec_metrics_text(self.healed_total as nat),
    {
        crate::metrics::render_metrics(self.healed_total)
    }
}

/// What the healer decides for one observed container.
#[derive(Clone, Copy, Debug, PartialEq, Eq, Structural)]
pub enum HealDecision {
    /// The container is not dead: leave it alone.
    NoAction,
    /// Attempts exhausted: emit `skipped_max_attempts`, touch nothing.
    SkipMaxAttempts,
    /// Try a restart; if that fails, force-remove and recreate.
    TryRestart,
}

/// The healing decision for one container in one state.
pub open spec fn spec_decide(s: HealerState, id: Seq<char>, state: ContainerState) -> HealDecision {
    if state != ContainerState::Dead {
        HealDecision::NoAction
    } else if spec_attempts_of(s.attempts@, id) >= MAX_HEAL_ATTEMPTS {
        HealDecision::SkipMaxAttempts
    } else {
        HealDecision::TryRestart
    }
}

impl HealerState {
    /// Decides what to do with one container.  Dead containers are
    /// restarted while their attempts last; the same logic serves the
    /// poll loop and selective healing.
    pub fn decide(&self, id: &str, state: ContainerState) -> (d: HealDecision)
        requires
            self.wf(),
        ensures
            d == spec_decide(*self, id@, state),
    {
        if state != ContainerState::Dead {
            HealDecision::NoAction
        } else if self.get_attempts(id) >= MAX_HEAL_ATTEMPTS {
            HealDecision::SkipMaxAttempts
        } else {
            HealDecision::TryRestart
        }
    }

    /// Decisions for a whole listing, in order.
    pub fn decide_all(&self, containers: &Vec<ContainerRecord>) -> (ds: Vec<HealDecision>)
        requires
            self.wf(),
        ensures
            ds@.len() == containers@.len(),
            forall|k: int|
                0 <= k < ds@.len() ==> (#[trigger] ds@[k]) == spec_decide(
                    *self,
                    containers@[k].id@,
                    containers@[k].state,
                ),
    {
        let mut ds: Vec<HealDecision> = Vec::new();
        let mut i: usize = 0;
        while i < containers.len()
            invariant
                self.wf(),
                i <= containers@.len(),
                ds@.len() == i,
                forall|k: int|
                    0 <= k < i ==> (#[trigger] ds@[k]) == spec_decide(
                        *self,
                        containers@[k].id@,
                        containers@[k].state,
                    ),
            decreases containers@.len() - i,
        {
            let d = self.decide(containers[i].id.as_str(), containers[i].state);
            ds.push(d);
            i = i + 1;
        }
        ds
    }
}

/// Attempts stay within the bound, always: the well-formed states the
/// healer moves through never charge a container more than
/// `MAX_HEAL_ATTEMPTS`.
pub proof fn lemma_attempts_never_exceed_bound(s: HealerState, id: Seq<char>)
    requires
        s.wf(),
    ensures
        spec_attempts_of(s.attempts@, id) <= MAX_HEAL_ATTEMPTS,
    decreases s.attempts@.len(),
{
    lemma_attempts_of_bounded(s.attempts@, id);
}

proof fn lemma_attempts_of_bounded(s: Seq<AttemptEntry>, id: Seq<char>)
    requires
        attempts_bounded(s),
    ensures
        spec_attempts_of(s, id) <= MAX_HEAL_ATTEMPTS,
    decreases s.len(),
{
    if s.len() > 0 {
        if s.last().id@ == id {
            assert(s[s.len() - 1].count <= MAX_HEAL_ATTEMPTS);
        } else {
            assert(attempts_bounded(s.drop_last()));
            lemma_attempts_of_bounded(s.drop_last(), id);
        }
    }
}

proof fn lemma_attempts_at_index(s: Seq<AttemptEntry>, i: int, id: Seq<char>)
    requires
        attempts_unique(s),
        0 <= i < s.len(),
        s[i].id@ == id,
    ensures
        spec_attempts_of(s, id) == s[i].count,
    decreases s.len(),
{
    if i == s.len() - 1 {
    } else {
        assert(s.last().id@ != id);
        assert(attempts_unique(s.drop_last()));
        lemma_attempts_at_index(s.drop_last(), i, id);
    }
}

proof fn lemma_attempts_absent(s: Seq<AttemptEntry>, id: Seq<char>)
    requires
        forall|j: int| 0 <= j < s.len() ==> (#[trigger] s[j].id@) != id,
    ensures
        spec_attempts_of(s, id) == 0,
    decreases s.len(),
{
    if s.len() > 0 {
        lemma_attempts_absent(s.drop_last(), id);
    }
}

proof fn lemma_attempts_update(s: Seq<AttemptEntry>, i: int, e: AttemptEntry)
    requires
        attempts_unique(s),
        0 <= i < s.len(),
        s[i].id@ == e.id@,
    ensures
        spec_attempts_of(s.update(i, e), e.id@) == e.count,
        attempts_unique(s.update(i, e)),
    decreases s.len(),
{
    let t = s.update(i, e);
    assert forall|a: int, b: int| 0 <= a < b < t.len() implies (#[trigger] t[a].id@)
        != (#[trigger] t[b].id@) by {
        assert(s[a].id@ != s[b].id@);
    }
    lemma_attempts_at_index(t, i, e.id@);
}

proof fn lemma_attempts_update_all(s: Seq<AttemptEntry>, i: int, e: AttemptEntry)
    requires
        attempts_unique(s),
        0 <= i < s.len(),
        s[i].id@ == e.id@,
    ensures
        forall|x: Seq<char>|
            x != e.id@ ==> spec_attempts_of(s.update(i, e), x) == spec_attempts_of(s, x),
    decreases s.len(),
{
    let t = s.update(i, e);
    assert forall|x: Seq<char>| x != e.id@ implies spec_attempts_of(t, x) == spec_attempts_of(
        s, x) by {
        lemma_attempts_update_one(s, i, e, x);
    }
}

proof fn lemma_attempts_update_one(s: Seq<AttemptEntry>, i: int, e: AttemptEntry, x: Seq<char>)
    requires
        attempts_unique(s),
        0 <= i < s.len(),
        s[i].id@ == e.id@,
        x != e.id@,
    ensures
        spec_attempts_of(s.update(i, e), x) == spec_attempts_of(s, x),
    decreases s.len(),
{
    let t = s.update(i, e);
    if i == s.len() - 1 {
        assert(t.drop_last() =~= s.drop_last());
        assert(t.last() == e);
        assert(s.last().id@ == e.id@);
    } else {
        assert(t.last() == s.last());
        assert(t.drop_last() =~= s.drop_last().update(i, e));
        if s.last().id@ == x {
        } else {
            assert(attempts_unique(s.drop_last()));
            lemma_attempts_update_one(s.drop_last(), i, e, x);
        }
    }
}

} // verus!
