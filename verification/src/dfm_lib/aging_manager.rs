//! Aging of faults: a confirmed fault is healed once its reset policy is met.
//!
//! Points in time are nanoseconds on a monotonic clock.

use vstd::prelude::*;
use vstd::string::*;

use super::operation_cycle::{count_of, cycled, law_cycles_add_up, OperationCycleTracker};
use super::sovd_fault_storage::{count_up, FaultStateView, SovdFaultState};
use crate::common::assoc_map::AssocMap;
use crate::common::config::{ResetPolicy, ResetTrigger};
use crate::common::debounce::elapsed;
use crate::common::fixed_string::escaped;

verus! {

/// How far a fault has aged. This lives in memory only: after a restart the aging
/// window begins anew.
#[derive(Debug)]
pub struct AgingState {
    /// Cycle counts when the fault was last active.
    pub last_active_cycle: AssocMap<String, u64>,
    /// Time when the fault was last active.
    pub last_active_time: u128,
    /// Number of times the fault aged out.
    pub aging_counter: u32,
    /// The fault aged out and was not active since.
    pub is_healed: bool,
}

/// Aging of a fault as a mathematical value.
pub struct AgingView {
    /// Cycle counts when the fault was last active.
    pub cycles: Map<Seq<char>, u64>,
    /// Time when the fault was last active.
    pub time: u128,
    /// Number of times the fault aged out.
    pub counter: u32,
    /// The fault aged out and was not active since.
    pub healed: bool,
}

impl View for AgingState {
    type V = AgingView;

    open spec fn view(&self) -> AgingView {
        AgingView {
            cycles: self.last_active_cycle@,
            time: self.last_active_time,
            counter: self.aging_counter,
            healed: self.is_healed,
        }
    }
}

impl AgingView {
    /// The aging of a fault that becomes active for the first time.
    pub open spec fn fresh(now: u128) -> Self {
        AgingView { cycles: Map::empty(), time: now, counter: 0, healed: false }
    }

    /// The aging after the fault was active.
    pub open spec fn activated(self, counts: Map<Seq<char>, u64>, now: u128) -> Self {
        AgingView { cycles: counts, time: now, counter: self.counter, healed: false }
    }

    /// The aging after the fault aged out.
    pub open spec fn aged_out(self) -> Self {
        AgingView {
            cycles: self.cycles,
            time: self.time,
            counter: count_up(self.counter),
            healed: true,
        }
    }

    /// Number of cycles since the fault was last active; zero if the counter went
    /// back.
    pub open spec fn cycles_since(self, counts: Map<Seq<char>, u64>, name: Seq<char>) -> nat {
        let now = count_of(counts, name);
        let then = count_of(self.cycles, name);
        if now >= then {
            (now - then) as nat
        } else {
            0
        }
    }

    /// The trigger of a reset policy is met.
    pub open spec fn trigger_met(
        self,
        trigger: ResetTrigger,
        counts: Map<Seq<char>, u64>,
        now: u128,
    ) -> bool {
        match trigger {
            ResetTrigger::PowerCycles(n) => self.cycles_since(counts, "power"@) >= n,
            ResetTrigger::OperationCycles { min_cycles, cycle_ref } => self.cycles_since(
                counts,
                escaped(cycle_ref@),
            ) >= min_cycles,
            ResetTrigger::StableFor(d) => elapsed(now, self.time) >= d.total_nanos(),
            ResetTrigger::ToolOnly => false,
        }
    }

    /// A reset policy is met: the fault is not healed yet, enough power cycles have
    /// passed in any case, and the trigger is met.
    pub open spec fn policy_met(
        self,
        policy: ResetPolicy,
        counts: Map<Seq<char>, u64>,
        now: u128,
    ) -> bool {
        &&& !self.healed
        &&& policy.min_operating_cycles_before_clear matches Some(n) ==> self.cycles_since(
            counts,
            "power"@,
        ) >= n
        &&& self.trigger_met(policy.trigger, counts, now)
    }
}

impl FaultStateView {
    /// The state after the fault aged out.
    pub open spec fn healed(self) -> Self {
        FaultStateView {
            confirmed_dtc: false,
            pending_dtc: false,
            test_failed: false,
            warning_indicator_requested: false,
            aging_counter: count_up(self.aging_counter),
            healing_counter: count_up(self.healing_counter),
            ..self
        }
    }
}

impl AgingState {
    /// The aging of a fault that becomes active for the first time.
    pub fn new(now: u128) -> (r: Self)
        ensures
            r@ == AgingView::fresh(now),
    {
        AgingState {
            last_active_cycle: AssocMap::new(),
            last_active_time: now,
            aging_counter: 0,
            is_healed: false,
        }
    }

    /// Notes that the fault is active, which starts the aging anew.
    pub fn mark_active(&mut self, cycle_tracker: &OperationCycleTracker, now: u128)
        ensures
            final(self)@ == old(self)@.activated(cycle_tracker@, now),
    {
        self.last_active_time = now;
        self.is_healed = false;
        self.last_active_cycle = cycle_tracker.snapshot();
    }

    /// Notes that the fault aged out.
    pub fn mark_healed(&mut self)
        ensures
            final(self)@ == old(self)@.aged_out(),
    {
        self.aging_counter = self.aging_counter.saturating_add(1);
        self.is_healed = true;
    }

    /// Number of cycles since the fault was last active.
    fn cycles_since(&self, cycle_tracker: &OperationCycleTracker, name: &str) -> (r: u64)
        ensures
            r == self@.cycles_since(cycle_tracker@, name@),
    {
        let current: u64 = cycle_tracker.get(name);
        let then: u64 = match self.last_active_cycle.get_str(name) {
            Some(n) => *n,
            None => 0,
        };
        current.saturating_sub(then)
    }
}

/// Decides when faults age out.
#[derive(Clone, Copy, Debug)]
pub struct AgingManager;

impl AgingManager {
    /// An aging manager.
    pub fn new() -> (r: Self)
        ensures
            r == AgingManager,
    {
        AgingManager
    }

    /// Whether a fault is to be healed.
    pub fn should_reset(
        &self,
        policy: &ResetPolicy,
        state: &AgingState,
        cycle_tracker: &OperationCycleTracker,
        now: u128,
    ) -> (r: bool)
        ensures
            r == state@.policy_met(*policy, cycle_tracker@, now),
    {
        if state.is_healed {
            return false;
        }
        if let Some(min_cycles) = policy.min_operating_cycles_before_clear {
            if state.cycles_since(cycle_tracker, "power") < min_cycles as u64 {
                return false;
            }
        }
        self.evaluate_trigger(&policy.trigger, state, cycle_tracker, now)
    }

    /// Whether the trigger of a reset policy is met.
    pub fn evaluate_trigger(
        &self,
        trigger: &ResetTrigger,
        state: &AgingState,
        cycle_tracker: &OperationCycleTracker,
        now: u128,
    ) -> (r: bool)
        ensures
            r == state@.trigger_met(*trigger, cycle_tracker@, now),
    {
        match trigger {
            ResetTrigger::PowerCycles(min_cycles) => state.cycles_since(cycle_tracker, "power")
                >= *min_cycles as u64,
            ResetTrigger::OperationCycles { min_cycles, cycle_ref } => {
                let name = cycle_ref.to_string();
                state.cycles_since(cycle_tracker, name.as_str()) >= *min_cycles as u64
            },
            ResetTrigger::StableFor(duration) => {
                let stable: u128 = if now >= state.last_active_time {
                    now - state.last_active_time
                } else {
                    0
                };
                stable >= duration.as_nanos()
            },
            ResetTrigger::ToolOnly => false,
        }
    }

    /// Heals a fault.
    pub fn apply_reset(&self, aging_state: &mut AgingState, sovd_state: &mut SovdFaultState)
        ensures
            final(aging_state)@ == old(aging_state)@.aged_out(),
            final(sovd_state)@ == old(sovd_state)@.healed(),
            final(sovd_state).env_data == old(sovd_state).env_data,
    {
        aging_state.mark_healed();
        sovd_state.confirmed_dtc = false;
        sovd_state.pending_dtc = false;
        sovd_state.test_failed = false;
        sovd_state.warning_indicator_requested = false;
        sovd_state.aging_counter = sovd_state.aging_counter.saturating_add(1);
        sovd_state.healing_counter = sovd_state.healing_counter.saturating_add(1);
    }
}

/// A fault that only a tool may clear never ages out.
pub proof fn law_tool_only_never_ages(
    a: AgingView,
    policy: ResetPolicy,
    counts: Map<Seq<char>, u64>,
    now: u128,
)
    requires
        policy.trigger is ToolOnly,
    ensures
        !a.policy_met(policy, counts, now),
{
}

/// A healed fault does not age out again before it was active.
pub proof fn law_healed_once(
    a: AgingView,
    policy: ResetPolicy,
    counts: Map<Seq<char>, u64>,
    now: u128,
)
    ensures
        !a.aged_out().policy_met(policy, counts, now),
{
}

/// Activity starts the aging anew: until a trigger that asks for at least one cycle
/// or some time sees one pass, the fault does not age out.
pub proof fn law_activity_restarts_aging(
    a: AgingView,
    policy: ResetPolicy,
    counts: Map<Seq<char>, u64>,
    now: u128,
)
    requires
        match policy.trigger {
            ResetTrigger::PowerCycles(n) => n > 0,
            ResetTrigger::OperationCycles { min_cycles, .. } => min_cycles > 0,
            ResetTrigger::StableFor(d) => d.total_nanos() > 0,
            ResetTrigger::ToolOnly => true,
        },
    ensures
        !a.activated(counts, now).policy_met(policy, counts, now),
{
}

/// While fewer power cycles than a policy asks for have been counted since the fault was
/// last active it does not age out, whatever the trigger. Where no minimum is asked for,
/// or it is reached, a fault that is not healed ages out exactly when the trigger is met.
pub proof fn law_minimum_cycles_are_kept(
    a: AgingView,
    policy: ResetPolicy,
    counts: Map<Seq<char>, u64>,
    now: u128,
)
    ensures
        policy.min_operating_cycles_before_clear matches Some(n) ==> (n > 0 && count_of(
            counts,
            "power"@,
        ) < count_of(a.cycles, "power"@) + n ==> !a.policy_met(policy, counts, now)),
        policy.min_operating_cycles_before_clear is None && !a.healed ==> (a.policy_met(
            policy,
            counts,
            now,
        ) <==> a.trigger_met(policy.trigger, counts, now)),
        policy.min_operating_cycles_before_clear matches Some(n) ==> ((n == 0 || count_of(
            counts,
            "power"@,
        ) >= count_of(a.cycles, "power"@) + n) && !a.healed ==> (a.policy_met(policy, counts, now)
            <==> a.trigger_met(policy.trigger, counts, now))),
{
}

/// A trigger that counts cycles is met once the count of its cycle lies that much above
/// the count when the fault was last active; one that asks for stability once that much
/// time has passed since; one that asks for nothing is always met, and one that leaves the
/// fault to a tool never.
pub proof fn law_triggers_measure_from_activity(
    a: AgingView,
    trigger: ResetTrigger,
    counts: Map<Seq<char>, u64>,
    now: u128,
)
    ensures
        match trigger {
            ResetTrigger::PowerCycles(n) => a.trigger_met(trigger, counts, now) <==> n == 0
                || count_of(counts, "power"@) >= count_of(a.cycles, "power"@) + n,
            ResetTrigger::OperationCycles { min_cycles, cycle_ref } => a.trigger_met(
                trigger,
                counts,
                now,
            ) <==> min_cycles == 0 || count_of(counts, escaped(cycle_ref@)) >= count_of(
                a.cycles,
                escaped(cycle_ref@),
            ) + min_cycles,
            ResetTrigger::StableFor(d) => a.trigger_met(trigger, counts, now) <==> (d.secs == 0
                && d.nanos == 0) || now >= a.time + d.secs * 1_000_000_000 + d.nanos,
            ResetTrigger::ToolOnly => !a.trigger_met(trigger, counts, now),
        },
{
}

/// Power cycles heal a fault as its policy says: when it was active and then some power
/// cycles are counted, it ages out exactly if these are as many as the trigger and the
/// minimum ask for.
pub proof fn law_power_cycles_heal(
    a: AgingView,
    counts: Map<Seq<char>, u64>,
    active_at: u128,
    cycles: nat,
    now: u128,
    policy: ResetPolicy,
)
    requires
        policy.trigger is PowerCycles,
        count_of(counts, "power"@) + cycles <= u64::MAX,
    ensures
        a.activated(counts, active_at).policy_met(policy, cycled(counts, "power"@, cycles), now)
            <==> cycles >= policy.trigger->PowerCycles_0 && (
        policy.min_operating_cycles_before_clear matches Some(n) ==> cycles >= n),
{
    law_cycles_add_up(counts, "power"@, cycles, "power"@);
}

/// Cycles of another kind do not make up for power cycles: a policy whose minimum is not
/// zero is not met by them alone.
pub proof fn law_other_cycles_do_not_count_as_power(
    a: AgingView,
    counts: Map<Seq<char>, u64>,
    active_at: u128,
    name: Seq<char>,
    cycles: nat,
    now: u128,
    policy: ResetPolicy,
)
    requires
        name != "power"@,
        count_of(counts, name) + cycles <= u64::MAX,
        policy.min_operating_cycles_before_clear matches Some(n) && n > 0,
    ensures
        !a.activated(counts, active_at).policy_met(policy, cycled(counts, name, cycles), now),
{
    law_cycles_add_up(counts, name, cycles, "power"@);
}

/// More cycles and more time never take back that a policy is met.
pub proof fn law_aging_is_monotone(
    a: AgingView,
    policy: ResetPolicy,
    counts: Map<Seq<char>, u64>,
    later_counts: Map<Seq<char>, u64>,
    now: u128,
    later: u128,
)
    requires
        a.policy_met(policy, counts, now),
        now <= later,
        forall|name: Seq<char>| #[trigger] count_of(counts, name) <= count_of(later_counts, name),
    ensures
        a.policy_met(policy, later_counts, later),
{
    assert(count_of(counts, "power"@) <= count_of(later_counts, "power"@));
    if policy.trigger is OperationCycles {
        let name = escaped(policy.trigger->cycle_ref@);
        assert(count_of(counts, name) <= count_of(later_counts, name));
    }
}

/// Activity is noted with its counts and its time and ends the healing; how often the
/// fault aged out before stays known. Aging out is counted and leaves the counts and the
/// time of the last activity alone.
pub proof fn law_aging_is_noted(a: AgingView, counts: Map<Seq<char>, u64>, now: u128)
    ensures
        a.activated(counts, now).cycles == counts,
        a.activated(counts, now).time == now,
        a.activated(counts, now).counter == a.counter,
        !a.activated(counts, now).healed,
        a.aged_out().healed,
        a.aged_out().cycles == a.cycles,
        a.aged_out().time == a.time,
        a.counter < u32::MAX ==> a.aged_out().counter == a.counter + 1,
        a.counter == u32::MAX ==> a.aged_out().counter == u32::MAX,
        AgingView::fresh(now).counter == 0,
        AgingView::fresh(now).time == now,
        AgingView::fresh(now).cycles == Map::<Seq<char>, u64>::empty(),
        !AgingView::fresh(now).healed,
{
}

/// A healed fault is neither failed, pending nor confirmed and asks for no warning. That
/// it was healed is counted twice, as aged out and as healed. The flags of the operation
/// cycle and those since the last clear, the occurrences and the environment stay.
pub proof fn law_healing_clears_the_fault(s: FaultStateView)
    ensures
        !s.healed().test_failed,
        !s.healed().pending_dtc,
        !s.healed().confirmed_dtc,
        !s.healed().warning_indicator_requested,
        s.aging_counter < u32::MAX ==> s.healed().aging_counter == s.aging_counter + 1,
        s.aging_counter == u32::MAX ==> s.healed().aging_counter == u32::MAX,
        s.healing_counter < u32::MAX ==> s.healed().healing_counter == s.healing_counter + 1,
        s.healing_counter == u32::MAX ==> s.healed().healing_counter == u32::MAX,
        s.healed().test_failed_this_operation_cycle == s.test_failed_this_operation_cycle,
        s.healed().test_failed_since_last_clear == s.test_failed_since_last_clear,
        s.healed().test_not_completed_this_operation_cycle
            == s.test_not_completed_this_operation_cycle,
        s.healed().test_not_completed_since_last_clear == s.test_not_completed_since_last_clear,
        s.healed().env_data == s.env_data,
        s.healed().occurrence_counter == s.occurrence_counter,
        s.healed().first_occurrence_secs == s.first_occurrence_secs,
        s.healed().last_occurrence_secs == s.last_occurrence_secs,
{
}

/// The manager never heals a fault that is healed already, and none before the minimum of
/// power cycles has passed since its last activity; otherwise it heals it exactly when
/// the trigger is met.
pub proof fn law_manager_keeps_to_the_policy(
    manager: AgingManager,
    policy: ResetPolicy,
    state: AgingState,
    tracker: OperationCycleTracker,
    now: u128,
    heals: bool,
    triggered: bool,
)
    requires
        call_ensures(
            AgingManager::should_reset,
            (&manager, &policy, &state, &tracker, now),
            heals,
        ),
        call_ensures(
            AgingManager::evaluate_trigger,
            (&manager, &policy.trigger, &state, &tracker, now),
            triggered,
        ),
    ensures
        ({
            let needed: nat = match policy.min_operating_cycles_before_clear {
                Some(n) => n as nat,
                None => 0,
            };
            let reached = needed == 0 || count_of(tracker@, "power"@) >= count_of(
                state.last_active_cycle@,
                "power"@,
            ) + needed;
            heals <==> !state.is_healed && reached && triggered
        }),
{
}

} // verus!
