//! The experiment event log and its projections.
//!
//! The log is the single source of truth for what happened in a run. The
//! [`EventLog`] appends [`ExperimentEvent`]s and feeds the metrics and
//! blast-radius projections inline, so hot counters are available without
//! replaying the log; the type's invariant is that the inline projections
//! always equal the projections of the whole log.
use vstd::prelude::*;

use crate::event::{ExperimentEvent, FaultClass};
use crate::fault::Fault;
use crate::time::{Duration, MAX_NANOS};
use crate::text::str_eq;

verus! {

/// Scope and execution metrics derived from the event log.
pub struct Metrics {
    // Execution
    pub scenarios: u64,
    pub unique_states: u64,
    pub unique_interleavings: u64,
    /// Sum of recovery durations across all `Recovery` events, whether or
    /// not the recovery succeeded.
    pub simulated_time: Duration,
    // Faults
    pub faults_injected: u64,
    pub max_fault_depth: u32,
    pub classes_seen: u64,
    // Recovery
    pub recoveries: u64,
    pub failures: u64,
    pub total_recovery_time: Duration,
    /// Running aggregates (not part of the public projection).
    pub running: RunningAggregates,
}

/// Running aggregates behind [`Metrics`]: the number of faults applied since
/// the last clear and the set of fault classes seen.
pub struct RunningAggregates {
    active_faults: u32,
    classes_mask: u8,
}

/// The running aggregates as plain values.
pub struct RunningView {
    pub active_faults: nat,
    pub seen_pause: bool,
    pub seen_kill: bool,
    pub seen_deprive: bool,
}

impl View for RunningAggregates {
    type V = RunningView;

    closed spec fn view(&self) -> RunningView {
        RunningView {
            active_faults: self.active_faults as nat,
            seen_pause: self.classes_mask & 1u8 != 0,
            seen_kill: self.classes_mask & 2u8 != 0,
            seen_deprive: self.classes_mask & 4u8 != 0,
        }
    }
}

/// The metrics as plain numbers.
pub struct MetricsView {
    pub scenarios: nat,
    pub unique_states: nat,
    pub unique_interleavings: nat,
    /// Nanoseconds.
    pub simulated_time: nat,
    pub faults_injected: nat,
    pub max_fault_depth: nat,
    pub classes_seen: nat,
    pub recoveries: nat,
    pub failures: nat,
    /// Nanoseconds.
    pub total_recovery_time: nat,
    /// Faults applied since the last clear (never below zero).
    pub active_faults: nat,
    pub seen_pause: bool,
    pub seen_kill: bool,
    pub seen_deprive: bool,
}

pub open spec fn count_true(a: bool, b: bool, c: bool) -> nat {
    (if a { 1nat } else { 0nat }) + (if b { 1nat } else { 0nat }) + (if c { 1nat } else { 0nat })
}

impl MetricsView {
    pub open spec fn zero() -> MetricsView {
        MetricsView {
            scenarios: 0,
            unique_states: 0,
            unique_interleavings: 0,
            simulated_time: 0,
            faults_injected: 0,
            max_fault_depth: 0,
            classes_seen: 0,
            recoveries: 0,
            failures: 0,
            total_recovery_time: 0,
            active_faults: 0,
            seen_pause: false,
            seen_kill: false,
            seen_deprive: false,
        }
    }

    /// The metrics after one more event.
    pub open spec fn apply(self, ev: ExperimentEvent) -> MetricsView {
        match ev {
            ExperimentEvent::ScenarioStarted => MetricsView {
                scenarios: self.scenarios + 1,
                ..self
            },
            ExperimentEvent::StateEnumerated { unique } => MetricsView {
                unique_states: if unique {
                    self.unique_states + 1
                } else {
                    self.unique_states
                },
                ..self
            },
            ExperimentEvent::InterleavingEnumerated { unique } => MetricsView {
                unique_interleavings: if unique {
                    self.unique_interleavings + 1
                } else {
                    self.unique_interleavings
                },
                ..self
            },
            ExperimentEvent::FaultApplied { fault } => {
                let active = self.active_faults + 1;
                let sp = self.seen_pause || FaultClass::of(fault) == FaultClass::Pause;
                let sk = self.seen_kill || FaultClass::of(fault) == FaultClass::Kill;
                let sd = self.seen_deprive || FaultClass::of(fault) == FaultClass::Deprive;
                MetricsView {
                    faults_injected: self.faults_injected + 1,
                    active_faults: active,
                    max_fault_depth: if active > self.max_fault_depth {
                        active
                    } else {
                        self.max_fault_depth
                    },
                    seen_pause: sp,
                    seen_kill: sk,
                    seen_deprive: sd,
                    classes_seen: count_true(sp, sk, sd),
                    ..self
                }
            },
            ExperimentEvent::FaultCleared => MetricsView {
                active_faults: if self.active_faults > 0 {
                    (self.active_faults - 1) as nat
                } else {
                    0
                },
                ..self
            },
            ExperimentEvent::Recovery { took, ok } => MetricsView {
                simulated_time: self.simulated_time + took.spec_nanos(),
                recoveries: if ok {
                    self.recoveries + 1
                } else {
                    self.recoveries
                },
                total_recovery_time: if ok {
                    self.total_recovery_time + took.spec_nanos()
                } else {
                    self.total_recovery_time
                },
                failures: if ok {
                    self.failures
                } else {
                    self.failures + 1
                },
                ..self
            },
            _ => self,
        }
    }

    /// Whether applying `ev` keeps every counter within its type. Past this
    /// the counters overflow, and a duration sum overflows its range.
    pub open spec fn can_apply(self, ev: ExperimentEvent) -> bool {
        match ev {
            ExperimentEvent::ScenarioStarted => self.scenarios < u64::MAX,
            ExperimentEvent::StateEnumerated { unique } => unique ==> self.unique_states
                < u64::MAX,
            ExperimentEvent::InterleavingEnumerated { unique } => unique
                ==> self.unique_interleavings < u64::MAX,
            ExperimentEvent::FaultApplied { .. } => self.faults_injected < u64::MAX
                && self.active_faults < u32::MAX,
            ExperimentEvent::Recovery { took, ok } => {
                &&& self.simulated_time + took.spec_nanos() <= MAX_NANOS
                &&& ok ==> self.recoveries < u64::MAX
                &&& !ok ==> self.failures < u64::MAX
            },
            _ => true,
        }
    }

    /// Whether one fault round (a fault applied, a state and an interleaving
    /// enumerated) keeps the counters within their types.
    pub open spec fn has_room_for_fault_round(self) -> bool {
        &&& self.faults_injected < u64::MAX
        &&& self.active_faults < u32::MAX
        &&& self.unique_states < u64::MAX
        &&& self.unique_interleavings < u64::MAX
    }

    /// Bounds every projected metrics value satisfies.
    pub open spec fn bounded(self) -> bool {
        &&& self.total_recovery_time <= self.simulated_time
        &&& self.max_fault_depth >= self.active_faults
        &&& self.classes_seen == count_true(self.seen_pause, self.seen_kill, self.seen_deprive)
    }
}

/// The metrics projected from a stretch of the log.
pub open spec fn metrics_of(events: Seq<ExperimentEvent>) -> MetricsView
    decreases events.len(),
{
    if events.len() == 0 {
        MetricsView::zero()
    } else {
        metrics_of(events.drop_last()).apply(events.last())
    }
}

/// Appending an event to the log applies it to the projected metrics.
pub proof fn metrics_of_push(events: Seq<ExperimentEvent>, ev: ExperimentEvent)
    ensures
        metrics_of(events.push(ev)) == metrics_of(events).apply(ev),
{
    assert(events.push(ev).drop_last() =~= events);
}

/// Projected metrics always satisfy [`MetricsView::bounded`].
pub proof fn metrics_bounded(events: Seq<ExperimentEvent>)
    ensures
        metrics_of(events).bounded(),
    decreases events.len(),
{
    if events.len() > 0 {
        metrics_bounded(events.drop_last());
    }
}

/// How many events of `events` satisfy `p`.
pub open spec fn count_where(events: Seq<ExperimentEvent>, p: spec_fn(ExperimentEvent) -> bool) -> nat {
    events.filter(p).len()
}

/// `ScenarioStarted` events.
pub open spec fn scenario_started() -> spec_fn(ExperimentEvent) -> bool {
    |e: ExperimentEvent| e is ScenarioStarted
}

/// `StateEnumerated` events of a unique state.
pub open spec fn unique_state() -> spec_fn(ExperimentEvent) -> bool {
    |e: ExperimentEvent| e matches ExperimentEvent::StateEnumerated { unique } && unique
}

/// `InterleavingEnumerated` events of a unique interleaving.
pub open spec fn unique_interleaving() -> spec_fn(ExperimentEvent) -> bool {
    |e: ExperimentEvent| e matches ExperimentEvent::InterleavingEnumerated { unique } && unique
}

/// `FaultApplied` events.
pub open spec fn fault_applied() -> spec_fn(ExperimentEvent) -> bool {
    |e: ExperimentEvent| e is FaultApplied
}

/// `Recovery` events that succeeded (`ok`) or failed (`!ok`).
pub open spec fn recovery_with(ok: bool) -> spec_fn(ExperimentEvent) -> bool {
    |e: ExperimentEvent| e matches ExperimentEvent::Recovery { ok: o, .. } && o == ok
}

/// The time a `Recovery` event took, counted when `ok_only` is false or
/// the recovery succeeded; 0 for every other event.
pub open spec fn recovery_nanos(ev: ExperimentEvent, ok_only: bool) -> nat {
    match ev {
        ExperimentEvent::Recovery { took, ok } => if ok || !ok_only {
            took.spec_nanos()
        } else {
            0
        },
        _ => 0,
    }
}

/// The sum of [`recovery_nanos`] over `events`.
pub open spec fn recovery_time_sum(events: Seq<ExperimentEvent>, ok_only: bool) -> nat
    decreases events.len(),
{
    if events.len() == 0 {
        0
    } else {
        recovery_time_sum(events.drop_last(), ok_only) + recovery_nanos(events.last(), ok_only)
    }
}

/// The fault depth after `events`: one more per fault applied, one less
/// (never below zero) per clear.
pub open spec fn fault_depth(events: Seq<ExperimentEvent>) -> nat
    decreases events.len(),
{
    if events.len() == 0 {
        0
    } else {
        let d = fault_depth(events.drop_last());
        match events.last() {
            ExperimentEvent::FaultApplied { .. } => d + 1,
            ExperimentEvent::FaultCleared => if d > 0 {
                (d - 1) as nat
            } else {
                0
            },
            _ => d,
        }
    }
}

/// Whether `ev` applies a fault of class `c`.
pub open spec fn applies_class(ev: ExperimentEvent, c: FaultClass) -> bool {
    ev matches ExperimentEvent::FaultApplied { fault } && FaultClass::of(fault) == c
}

/// Whether some event of `events` applies a fault of class `c`.
pub open spec fn class_applied(events: Seq<ExperimentEvent>, c: FaultClass) -> bool {
    exists|i: int| 0 <= i < events.len() && applies_class(#[trigger] events[i], c)
}

/// One step of a filter's count: the events before the last, plus the last
/// when it qualifies.
proof fn count_where_step(events: Seq<ExperimentEvent>, p: spec_fn(ExperimentEvent) -> bool)
    requires
        events.len() > 0,
    ensures
        count_where(events, p) == count_where(events.drop_last(), p) + (if p(events.last()) { 1nat } else { 0nat }),
{
    reveal_with_fuel(Seq::filter, 1);
}

/// The metrics count and sum the log's events: scenarios started, unique
/// states and interleavings, faults applied, successful and failed
/// recoveries are the numbers of such events; the simulated time is the sum
/// of every recovery's duration, the total recovery time that of the
/// successful ones.
pub proof fn metrics_count_events(events: Seq<ExperimentEvent>)
    ensures
        metrics_of(events).scenarios == count_where(events, scenario_started()),
        metrics_of(events).unique_states == count_where(events, unique_state()),
        metrics_of(events).unique_interleavings == count_where(events, unique_interleaving()),
        metrics_of(events).faults_injected == count_where(events, fault_applied()),
        metrics_of(events).recoveries == count_where(events, recovery_with(true)),
        metrics_of(events).failures == count_where(events, recovery_with(false)),
        metrics_of(events).simulated_time == recovery_time_sum(events, false),
        metrics_of(events).total_recovery_time == recovery_time_sum(events, true),
    decreases events.len(),
{
    reveal_with_fuel(Seq::filter, 1);
    if events.len() > 0 {
        metrics_count_events(events.drop_last());
        count_where_step(events, scenario_started());
        count_where_step(events, unique_state());
        count_where_step(events, unique_interleaving());
        count_where_step(events, fault_applied());
        count_where_step(events, recovery_with(true));
        count_where_step(events, recovery_with(false));
    }
}

/// The fault-depth rules: the depth rises by one per fault applied and
/// falls by one per clear without going below zero; the maximum fault
/// depth is the largest depth reached after any prefix of the log (0 for
/// an empty log); a class counts as seen once a fault of it was applied,
/// and the classes seen are the number of such classes.
pub proof fn metrics_fault_depth_and_classes(events: Seq<ExperimentEvent>)
    ensures
        metrics_of(events).active_faults == fault_depth(events),
        forall|k: int| 0 <= k <= events.len() ==> fault_depth(#[trigger] events.take(k)) <= metrics_of(events).max_fault_depth,
        exists|k: int| 0 <= k <= events.len() && fault_depth(#[trigger] events.take(k)) == metrics_of(events).max_fault_depth,
        metrics_of(events).seen_pause == class_applied(events, FaultClass::Pause),
        metrics_of(events).seen_kill == class_applied(events, FaultClass::Kill),
        metrics_of(events).seen_deprive == class_applied(events, FaultClass::Deprive),
        metrics_of(events).classes_seen == count_true(
            class_applied(events, FaultClass::Pause),
            class_applied(events, FaultClass::Kill),
            class_applied(events, FaultClass::Deprive),
        ),
    decreases events.len(),
{
    metrics_bounded(events);
    if events.len() == 0 {
        assert(events.take(0) =~= events);
    } else {
        let prev = events.drop_last();
        metrics_fault_depth_and_classes(prev);
        let n = events.len() as int;
        assert(events.take(n) =~= events);
        assert forall|k: int| 0 <= k < n implies #[trigger] events.take(k) == prev.take(k) by {
            assert(events.take(k) =~= prev.take(k));
        }
        assert forall|k: int| 0 <= k <= events.len() implies fault_depth(#[trigger] events.take(k))
            <= metrics_of(events).max_fault_depth by {
            if k < n {
                assert(events.take(k) == prev.take(k));
                assert(fault_depth(prev.take(k)) <= metrics_of(prev).max_fault_depth);
            }
        }
        let k0 = choose|k: int| 0 <= k <= prev.len() && fault_depth(#[trigger] prev.take(k)) == metrics_of(prev).max_fault_depth;
        assert(events.take(k0) == prev.take(k0));
        if metrics_of(events).max_fault_depth == metrics_of(prev).max_fault_depth {
            assert(fault_depth(events.take(k0)) == metrics_of(events).max_fault_depth);
        } else {
            assert(fault_depth(events.take(n)) == metrics_of(events).max_fault_depth);
        }
        assert forall|c: FaultClass| class_applied(events, c) == (class_applied(prev, c) || applies_class(events.last(), c)) by {
            if class_applied(events, c) {
                let i = choose|i: int| 0 <= i < events.len() && applies_class(#[trigger] events[i], c);
                if i < n - 1 {
                    assert(prev[i] == events[i]);
                }
            }
            if class_applied(prev, c) {
                let i = choose|i: int| 0 <= i < prev.len() && applies_class(#[trigger] prev[i], c);
                assert(prev[i] == events[i]);
            }
            if applies_class(events.last(), c) {
                assert(events[n - 1] == events.last());
            }
        }
    }
}

/// Which of the four tracked classes `c` names, if any.
pub open spec fn class_totals(b: BlastRadius, c: Seq<char>) -> Totals {
    if c == "node"@ {
        b.nodes
    } else if c == "service"@ {
        b.services
    } else if c == "client"@ {
        b.clients
    } else {
        b.requests
    }
}

/// Whether `ev` reports a blast radius of class `c`.
pub open spec fn blast_of_class(ev: ExperimentEvent, c: Seq<char>) -> bool {
    ev matches ExperimentEvent::BlastAffected { class, .. } && class@ == c
}

/// Each tracked class of the blast radius keeps the largest affected count
/// and the largest total reported for it (0 when none was), whatever the
/// other events of the log.
pub proof fn blast_keeps_maxima(events: Seq<ExperimentEvent>, c: Seq<char>)
    requires
        c == "node"@ || c == "service"@ || c == "client"@ || c == "request"@,
    ensures
        forall|i: int| 0 <= i < events.len() && blast_of_class(#[trigger] events[i], c) ==> {
            &&& events[i]->affected <= class_totals(blast_of(events), c).affected
            &&& events[i]->total <= class_totals(blast_of(events), c).total
        },
        class_totals(blast_of(events), c).affected == 0 || exists|i: int|
            0 <= i < events.len() && blast_of_class(#[trigger] events[i], c) && events[i]->affected
                == class_totals(blast_of(events), c).affected,
        class_totals(blast_of(events), c).total == 0 || exists|i: int|
            0 <= i < events.len() && blast_of_class(#[trigger] events[i], c) && events[i]->total
                == class_totals(blast_of(events), c).total,
    decreases events.len(),
{
    reveal_strlit("node");
    reveal_strlit("service");
    reveal_strlit("client");
    reveal_strlit("request");
    if events.len() > 0 {
        let prev = events.drop_last();
        let n = events.len() as int;
        blast_keeps_maxima(prev, c);
        let before = class_totals(blast_of(prev), c);
        let after = class_totals(blast_of(events), c);
        let last = events.last();
        assert(events[n - 1] == last);
        assert forall|i: int| 0 <= i < n - 1 implies #[trigger] events[i] == prev[i] by {}
        if blast_of_class(last, c) {
            assert(after == before.observe(last->affected, last->total));
        } else {
            assert(after == before);
        }
        assert forall|i: int| 0 <= i < events.len() && blast_of_class(#[trigger] events[i], c) implies {
            &&& events[i]->affected <= after.affected
            &&& events[i]->total <= after.total
        } by {
            if i < n - 1 {
                assert(events[i] == prev[i]);
            }
        }
        if after.affected != 0 {
            if blast_of_class(last, c) && after.affected == last->affected {
            } else {
                let i = choose|i: int| 0 <= i < prev.len() && blast_of_class(#[trigger] prev[i], c) && prev[i]->affected == before.affected;
                assert(events[i] == prev[i]);
            }
        }
        if after.total != 0 {
            if blast_of_class(last, c) && after.total == last->total {
            } else {
                let i = choose|i: int| 0 <= i < prev.len() && blast_of_class(#[trigger] prev[i], c) && prev[i]->total == before.total;
                assert(events[i] == prev[i]);
            }
        }
    }
}

/// A class bit of the internal class mask.
pub open spec fn class_bit(c: FaultClass) -> u8 {
    match c {
        FaultClass::Pause => 1u8,
        FaultClass::Kill => 2u8,
        FaultClass::Deprive => 4u8,
    }
}

impl View for Metrics {
    type V = MetricsView;

    open spec fn view(&self) -> MetricsView {
        MetricsView {
            scenarios: self.scenarios as nat,
            unique_states: self.unique_states as nat,
            unique_interleavings: self.unique_interleavings as nat,
            simulated_time: self.simulated_time.spec_nanos(),
            faults_injected: self.faults_injected as nat,
            max_fault_depth: self.max_fault_depth as nat,
            classes_seen: self.classes_seen as nat,
            recoveries: self.recoveries as nat,
            failures: self.failures as nat,
            total_recovery_time: self.total_recovery_time.spec_nanos(),
            active_faults: self.running@.active_faults,
            seen_pause: self.running@.seen_pause,
            seen_kill: self.running@.seen_kill,
            seen_deprive: self.running@.seen_deprive,
        }
    }
}

fn fault_class_bit(fault: Fault) -> (b: u8)
    ensures
        b == class_bit(FaultClass::of(fault)),
{
    match FaultClass::from(fault) {
        FaultClass::Pause => 1u8,
        FaultClass::Kill => 2u8,
        FaultClass::Deprive => 4u8,
    }
}

/// Number of class bits set in a mask of the three class bits.
fn classes_in(mask: u8) -> (n: u64)
    ensures
        n == count_true(mask & 1u8 != 0, mask & 2u8 != 0, mask & 4u8 != 0),
{
    let a: u64 = if mask & 1u8 != 0 { 1 } else { 0 };
    let b: u64 = if mask & 2u8 != 0 { 1 } else { 0 };
    let c: u64 = if mask & 4u8 != 0 { 1 } else { 0 };
    a + b + c
}

impl Metrics {
    /// Metrics of an empty log.
    pub fn new() -> (m: Metrics)
        ensures
            m@ == MetricsView::zero(),
    {
        let m = Metrics {
            scenarios: 0,
            unique_states: 0,
            unique_interleavings: 0,
            simulated_time: Duration::zero(),
            faults_injected: 0,
            max_fault_depth: 0,
            classes_seen: 0,
            recoveries: 0,
            failures: 0,
            total_recovery_time: Duration::zero(),
            running: RunningAggregates { active_faults: 0, classes_mask: 0 },
        };
        assert(0u8 & 1u8 == 0u8 && 0u8 & 2u8 == 0u8 && 0u8 & 4u8 == 0u8) by (bit_vector);
        m
    }

    /// Fold a stretch of the log into metrics.
    pub fn from_events(events: &[ExperimentEvent]) -> (m: Metrics)
        requires
            forall|i: int|
                0 <= i < events@.len() ==> #[trigger] metrics_of(events@.subrange(0, i)).can_apply(
                    events@[i],
                ),
        ensures
            m@ == metrics_of(events@),
    {
        let mut m = Metrics::new();
        let mut i: usize = 0;
        while i < events.len()
            invariant
                i <= events@.len(),
                m@ == metrics_of(events@.subrange(0, i as int)),
                forall|j: int|
                    0 <= j < events@.len() ==> #[trigger] metrics_of(
                        events@.subrange(0, j),
                    ).can_apply(events@[j]),
            decreases events.len() - i,
        {
            proof {
                assert(events@.subrange(0, i + 1).drop_last() =~= events@.subrange(0, i as int));
                metrics_bounded(events@.subrange(0, i as int));
            }
            m.apply(&events[i]);
            i += 1;
        }
        assert(events@.subrange(0, events@.len() as int) =~= events@);
        m
    }

    /// Apply a single event to the running aggregate.
    pub fn apply(&mut self, ev: &ExperimentEvent)
        requires
            old(self)@.can_apply(*ev),
            old(self)@.bounded(),
        ensures
            final(self)@ == old(self)@.apply(*ev),
    {
        match ev {
            ExperimentEvent::ScenarioStarted => self.scenarios += 1,
            ExperimentEvent::StateEnumerated { unique } => {
                if *unique {
                    self.unique_states += 1;
                }
            },
            ExperimentEvent::InterleavingEnumerated { unique } => {
                if *unique {
                    self.unique_interleavings += 1;
                }
            },
            ExperimentEvent::FaultApplied { fault } => {
                self.faults_injected += 1;
                self.running.active_faults += 1;
                if self.running.active_faults > self.max_fault_depth {
                    self.max_fault_depth = self.running.active_faults;
                }
                let bit = fault_class_bit(*fault);
                let old_mask = self.running.classes_mask;
                let mask = old_mask | bit;
                assert(bit == 1u8 ==> ((old_mask | bit) & 1u8 != 0 && (old_mask | bit) & 2u8
                    == old_mask & 2u8 && (old_mask | bit) & 4u8 == old_mask & 4u8)) by (bit_vector);
                assert(bit == 2u8 ==> ((old_mask | bit) & 2u8 != 0 && (old_mask | bit) & 1u8
                    == old_mask & 1u8 && (old_mask | bit) & 4u8 == old_mask & 4u8)) by (bit_vector);
                assert(bit == 4u8 ==> ((old_mask | bit) & 4u8 != 0 && (old_mask | bit) & 1u8
                    == old_mask & 1u8 && (old_mask | bit) & 2u8 == old_mask & 2u8)) by (bit_vector);
                self.running.classes_mask = mask;
                self.classes_seen = classes_in(mask);
            },
            ExperimentEvent::FaultCleared => {
                self.running.active_faults = self.running.active_faults.saturating_sub(1);
            },
            ExperimentEvent::Recovery { ok, took } => {
                self.simulated_time = self.simulated_time.add(*took);
                if *ok {
                    self.recoveries += 1;
                    self.total_recovery_time = self.total_recovery_time.add(*took);
                } else {
                    self.failures += 1;
                }
            },
            _ => {},
        }
    }
}

impl Clone for Metrics {
    fn clone(&self) -> (m: Metrics)
        ensures
            m@ == self@,
    {
        Metrics {
            scenarios: self.scenarios,
            unique_states: self.unique_states,
            unique_interleavings: self.unique_interleavings,
            simulated_time: self.simulated_time,
            faults_injected: self.faults_injected,
            max_fault_depth: self.max_fault_depth,
            classes_seen: self.classes_seen,
            recoveries: self.recoveries,
            failures: self.failures,
            total_recovery_time: self.total_recovery_time,
            running: RunningAggregates {
                active_faults: self.running.active_faults,
                classes_mask: self.running.classes_mask,
            },
        }
    }
}

/// A count and a whole.
#[derive(Clone, Copy, Debug, PartialEq, Eq, Structural)]
pub struct Totals {
    pub affected: u64,
    pub total: u64,
}

impl Totals {
    pub fn new() -> (t: Totals)
        ensures
            t == (Totals { affected: 0, total: 0 }),
    {
        Totals { affected: 0, total: 0 }
    }

    /// The parts of the ratio affected/total: none when the total is 0
    /// (the division itself is done in floating point by the caller).
    pub fn ratio_parts(&self) -> (r: Option<(u64, u64)>)
        ensures
            r == if self.total == 0 {
                None
            } else {
                Some((self.affected, self.total))
            },
    {
        if self.total == 0 {
            None
        } else {
            Some((self.affected, self.total))
        }
    }

    /// Totals after observing `affected` out of `total`: each is the largest
    /// seen so far.
    pub open spec fn observe(self, affected: u64, total: u64) -> Totals {
        Totals {
            affected: if affected > self.affected {
                affected
            } else {
                self.affected
            },
            total: if total > self.total {
                total
            } else {
                self.total
            },
        }
    }
}

/// Per-target-class blast radius (affected out of total).
#[derive(Clone, Copy, Debug, PartialEq, Eq, Structural)]
pub struct BlastRadius {
    pub nodes: Totals,
    pub services: Totals,
    pub clients: Totals,
    pub requests: Totals,
}

impl BlastRadius {
    pub open spec fn zero() -> BlastRadius {
        BlastRadius {
            nodes: Totals { affected: 0, total: 0 },
            services: Totals { affected: 0, total: 0 },
            clients: Totals { affected: 0, total: 0 },
            requests: Totals { affected: 0, total: 0 },
        }
    }

    /// The blast radius after one more event. Classes other than `node`,
    /// `service`, `client` and `request` are ignored.
    pub open spec fn spec_apply(self, ev: ExperimentEvent) -> BlastRadius {
        match ev {
            ExperimentEvent::BlastAffected { class, affected, total } => {
                if class@ == "node"@ {
                    BlastRadius { nodes: self.nodes.observe(affected, total), ..self }
                } else if class@ == "service"@ {
                    BlastRadius { services: self.services.observe(affected, total), ..self }
                } else if class@ == "client"@ {
                    BlastRadius { clients: self.clients.observe(affected, total), ..self }
                } else if class@ == "request"@ {
                    BlastRadius { requests: self.requests.observe(affected, total), ..self }
                } else {
                    self
                }
            },
            _ => self,
        }
    }

    pub fn new() -> (b: BlastRadius)
        ensures
            b == BlastRadius::zero(),
    {
        BlastRadius {
            nodes: Totals::new(),
            services: Totals::new(),
            clients: Totals::new(),
            requests: Totals::new(),
        }
    }

    /// Fold a stretch of the log into a blast radius.
    pub fn from_events(events: &[ExperimentEvent]) -> (b: BlastRadius)
        ensures
            b == blast_of(events@),
    {
        let mut b = BlastRadius::new();
        let mut i: usize = 0;
        while i < events.len()
            invariant
                i <= events@.len(),
                b == blast_of(events@.subrange(0, i as int)),
            decreases events.len() - i,
        {
            assert(events@.subrange(0, i + 1).drop_last() =~= events@.subrange(0, i as int));
            b.apply(&events[i]);
            i += 1;
        }
        assert(events@.subrange(0, events@.len() as int) =~= events@);
        b
    }

    /// Apply a single event (see [`BlastRadius::spec_apply`]).
    pub fn apply(&mut self, ev: &ExperimentEvent)
        ensures
            *final(self) == old(self).spec_apply(*ev),
    {
        if let ExperimentEvent::BlastAffected { class, affected, total } = ev {
            if str_eq(*class, "node") {
                observe(&mut self.nodes, *affected, *total);
            } else if str_eq(*class, "service") {
                observe(&mut self.services, *affected, *total);
            } else if str_eq(*class, "client") {
                observe(&mut self.clients, *affected, *total);
            } else if str_eq(*class, "request") {
                observe(&mut self.requests, *affected, *total);
            }
        }
    }
}

fn observe(t: &mut Totals, affected: u64, total: u64)
    ensures
        *final(t) == old(t).observe(affected, total),
{
    if affected > t.affected {
        t.affected = affected;
    }
    if total > t.total {
        t.total = total;
    }
}

/// The blast radius projected from a stretch of the log.
pub open spec fn blast_of(events: Seq<ExperimentEvent>) -> BlastRadius
    decreases events.len(),
{
    if events.len() == 0 {
        BlastRadius::zero()
    } else {
        blast_of(events.drop_last()).spec_apply(events.last())
    }
}

/// Append-only event log with inline projections.
pub struct EventLog {
    events: Vec<ExperimentEvent>,
    metrics: Metrics,
    blast: BlastRadius,
}

impl EventLog {
    /// The inline projections are those of the whole log.
    #[verifier::type_invariant]
    spec fn projections_agree(self) -> bool {
        &&& self.metrics@ == metrics_of(self.events@)
        &&& self.blast == blast_of(self.events@)
    }

    /// The events recorded so far, oldest first.
    pub closed spec fn spec_events(&self) -> Seq<ExperimentEvent> {
        self.events@
    }

    /// Whether `ev` can be appended without a metrics counter overflowing.
    pub open spec fn accepts(&self, ev: ExperimentEvent) -> bool {
        metrics_of(self.spec_events()).can_apply(ev)
    }

    pub fn new() -> (log: EventLog)
        ensures
            log.spec_events() == Seq::<ExperimentEvent>::empty(),
    {
        let log = EventLog { events: Vec::new(), metrics: Metrics::new(), blast: BlastRadius::new() };
        assert(log.events@ =~= Seq::<ExperimentEvent>::empty());
        log
    }

    /// Append an event, feeding the inline projections.
    pub fn push(&mut self, ev: ExperimentEvent) -> (r: &mut EventLog)
        requires
            old(self).accepts(ev),
        ensures
            r.spec_events() == old(self).spec_events().push(ev),
            *final(self) == *final(r),
    {
        proof {
            use_type_invariant(&*self);
            metrics_bounded(self.events@);
        }
        let mut metrics = self.metrics.clone();
        metrics.apply(&ev);
        let mut blast = self.blast;
        blast.apply(&ev);
        let mut current = EventLog::new();
        std::mem::swap(&mut current, self);
        proof {
            use_type_invariant(&current);
        }
        let EventLog { events, .. } = current;
        let mut events = events;
        let ghost before = events@;
        events.push(ev);
        assert(events@.drop_last() =~= before);
        *self = EventLog { events, metrics, blast };
        self
    }

    /// Whether `ev` can be appended (see [`EventLog::accepts`]).
    pub fn can_accept(&self, ev: &ExperimentEvent) -> (b: bool)
        ensures
            b == self.accepts(*ev),
    {
        proof {
            use_type_invariant(self);
        }
        let m = &self.metrics;
        match ev {
            ExperimentEvent::ScenarioStarted => m.scenarios < u64::MAX,
            ExperimentEvent::StateEnumerated { unique } => !*unique || m.unique_states < u64::MAX,
            ExperimentEvent::InterleavingEnumerated { unique } => !*unique || m.unique_interleavings < u64::MAX,
            ExperimentEvent::FaultApplied { .. } => m.faults_injected < u64::MAX && m.running.active_faults < u32::MAX,
            ExperimentEvent::Recovery { took, ok } => {
                let room = m.simulated_time.as_nanos() + took.as_nanos() <= MAX_NANOS;
                let counter = if *ok {
                    m.recoveries < u64::MAX
                } else {
                    m.failures < u64::MAX
                };
                room && counter
            },
            _ => true,
        }
    }

    /// Whether one more fault round fits (see
    /// [`MetricsView::has_room_for_fault_round`]).
    pub fn has_room_for_fault_round(&self) -> (b: bool)
        ensures
            b == metrics_of(self.spec_events()).has_room_for_fault_round(),
    {
        proof {
            use_type_invariant(self);
        }
        let m = &self.metrics;
        m.faults_injected < u64::MAX && m.running.active_faults < u32::MAX && m.unique_states < u64::MAX
            && m.unique_interleavings < u64::MAX
    }

    /// The events recorded so far.
    pub fn events(&self) -> (e: &[ExperimentEvent])
        ensures
            e@ == self.spec_events(),
    {
        self.events.as_slice()
    }

    /// The number of events recorded so far.
    pub fn len(&self) -> (n: usize)
        ensures
            n == self.spec_events().len(),
    {
        self.events.len()
    }

    /// Metrics projected from the log.
    pub fn metrics(&self) -> (m: &Metrics)
        ensures
            m@ == metrics_of(self.spec_events()),
    {
        proof {
            use_type_invariant(self);
        }
        &self.metrics
    }

    /// Blast-radius projection over the log.
    pub fn blast(&self) -> (b: &BlastRadius)
        ensures
            *b == blast_of(self.spec_events()),
    {
        proof {
            use_type_invariant(self);
        }
        &self.blast
    }
}

} // verus!
