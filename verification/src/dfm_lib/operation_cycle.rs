//! Counting of operation cycles, by which faults age.

use vstd::prelude::*;
use vstd::string::*;

use crate::common::assoc_map::AssocMap;
use crate::common::fault::IpcTimestamp;

verus! {

/// Where an operation-cycle event comes from.
#[derive(Clone, Copy, Debug, PartialEq, Eq, Structural)]
pub enum CycleSource {
    /// Power management of an ECU.
    Ecu,
    /// Lifecycle service of a computer.
    Hpc,
    /// A tool or a test.
    Manual,
}

/// What happened to an operation cycle.
#[derive(Clone, Copy, Debug, PartialEq, Eq, Structural)]
pub enum CycleEventType {
    /// A new cycle began; it is counted.
    Start,
    /// The cycle ended; nothing is counted.
    Stop,
    /// The cycle ended and a new one began; one cycle is counted.
    Restart,
}

/// An operation-cycle event.
#[derive(Debug)]
pub struct OperationCycleEvent {
    /// Name of the cycle.
    pub cycle_id: String,
    /// What happened.
    pub event_type: CycleEventType,
    /// When it happened.
    pub timestamp: IpcTimestamp,
    /// Where the event comes from.
    pub source: CycleSource,
}

impl OperationCycleEvent {
    /// The event begins a cycle.
    pub open spec fn begins_cycle(self) -> bool {
        self.event_type == CycleEventType::Start || self.event_type == CycleEventType::Restart
    }
}

/// A source of operation-cycle events.
pub trait OperationCycleProvider {
    /// Events that were not polled yet.
    spec fn pending(&self) -> Seq<OperationCycleEvent>;

    /// Takes all pending events, without waiting. Polling again before a new event
    /// gives nothing.
    fn poll(&mut self) -> (r: Vec<OperationCycleEvent>)
        ensures
            r@ == old(self).pending(),
            final(self).pending() == Seq::<OperationCycleEvent>::empty(),
    ;

    /// Current count of a cycle, if the provider keeps one.
    fn current_cycle(&self, cycle_id: &str) -> (r: Option<u64>)
        default_ensures
            r is None,
    {
        None
    }
}

/// Counts of operation cycles by name.
#[derive(Debug)]
pub struct OperationCycleTracker {
    cycles: AssocMap<String, u64>,
}

/// The count of a cycle; zero for one that never occurred.
pub open spec fn count_of(counts: Map<Seq<char>, u64>, name: Seq<char>) -> u64 {
    if counts.contains_key(name) {
        counts[name]
    } else {
        0
    }
}

/// The counts after one more cycle, as far as it can be counted.
pub open spec fn counted(counts: Map<Seq<char>, u64>, name: Seq<char>) -> Map<Seq<char>, u64> {
    let n = count_of(counts, name);
    counts.insert(
        name,
        if n < u64::MAX {
            (n + 1) as u64
        } else {
            n
        },
    )
}

/// The counts after a series of events.
pub open spec fn counts_after(
    counts: Map<Seq<char>, u64>,
    events: Seq<OperationCycleEvent>,
) -> Map<Seq<char>, u64>
    decreases events.len(),
{
    if events.len() == 0 {
        counts
    } else {
        let before = counts_after(counts, events.drop_last());
        if events.last().begins_cycle() {
            counted(before, events.last().cycle_id@)
        } else {
            before
        }
    }
}

/// The names of the cycles that a series of events begins, in order.
pub open spec fn begun_cycles(events: Seq<OperationCycleEvent>) -> Seq<Seq<char>>
    decreases events.len(),
{
    if events.len() == 0 {
        seq![]
    } else if events.last().begins_cycle() {
        begun_cycles(events.drop_last()).push(events.last().cycle_id@)
    } else {
        begun_cycles(events.drop_last())
    }
}

impl View for OperationCycleTracker {
    type V = Map<Seq<char>, u64>;

    closed spec fn view(&self) -> Map<Seq<char>, u64> {
        self.cycles@
    }
}

impl OperationCycleTracker {
    /// A tracker that has counted nothing.
    pub fn new() -> (r: Self)
        ensures
            r@ == Map::<Seq<char>, u64>::empty(),
    {
        OperationCycleTracker { cycles: AssocMap::new() }
    }

    /// Counts a cycle and gives its new count.
    pub fn increment(&mut self, cycle_ref: &str) -> (r: u64)
        ensures
            final(self)@ == counted(old(self)@, cycle_ref@),
            r == count_of(final(self)@, cycle_ref@),
    {
        let count: u64 = self.get(cycle_ref).saturating_add(1);
        self.cycles.insert(String::from_str(cycle_ref), count);
        count
    }

    /// The count of a cycle; zero for one that never occurred.
    pub fn get(&self, cycle_ref: &str) -> (r: u64)
        ensures
            r == count_of(self@, cycle_ref@),
    {
        match self.cycles.get_str(cycle_ref) {
            Some(n) => *n,
            None => 0,
        }
    }

    /// All counts.
    pub fn snapshot(&self) -> (r: AssocMap<String, u64>)
        ensures
            r@ == self@,
    {
        self.cycles.clone()
    }

    /// Applies events in order and gives the names of the cycles that were counted.
    pub fn apply_events(&mut self, events: &[OperationCycleEvent]) -> (r: Vec<String>)
        ensures
            final(self)@ == counts_after(old(self)@, events@),
            r@.len() == begun_cycles(events@).len(),
            forall|i: int| 0 <= i < r@.len() ==> (#[trigger] r@[i])@ == begun_cycles(events@)[i],
    {
        let mut incremented: Vec<String> = Vec::new();
        let mut i: usize = 0;
        assert(events@.take(0) =~= seq![]);
        while i < events.len()
            invariant
                i <= events@.len(),
                self@ == counts_after(old(self)@, events@.take(i as int)),
                incremented@.len() == begun_cycles(events@.take(i as int)).len(),
                forall|j: int|
                    0 <= j < incremented@.len() ==> (#[trigger] incremented@[j])@ == begun_cycles(
                        events@.take(i as int),
                    )[j],
            decreases events@.len() - i,
        {
            let event = &events[i];
            let ghost next = events@.take(i + 1);
            assert(next.drop_last() =~= events@.take(i as int));
            assert(next.last() == *event);
            match event.event_type {
                CycleEventType::Start | CycleEventType::Restart => {
                    let _ = self.increment(event.cycle_id.as_str());
                    incremented.push(event.cycle_id.clone());
                },
                CycleEventType::Stop => {},
            }
            i += 1;
        }
        assert(events@.take(i as int) =~= events@);
        incremented
    }
}

impl Default for OperationCycleTracker {
    fn default() -> (r: Self)
        ensures
            r@ == Map::<Seq<char>, u64>::empty(),
    {
        Self::new()
    }
}

/// A count never falls and grows by at most one per event.
pub proof fn law_counts_grow(
    counts: Map<Seq<char>, u64>,
    events: Seq<OperationCycleEvent>,
    name: Seq<char>,
)
    ensures
        count_of(counts, name) <= count_of(counts_after(counts, events), name) <= count_of(
            counts,
            name,
        ) + events.len(),
    decreases events.len(),
{
    if events.len() > 0 {
        law_counts_grow(counts, events.drop_last(), name);
    }
}

/// Counting one cycle leaves the others alone.
pub proof fn law_counters_are_independent(
    counts: Map<Seq<char>, u64>,
    name: Seq<char>,
    other: Seq<char>,
)
    requires
        name != other,
    ensures
        count_of(counted(counts, name), other) == count_of(counts, other),
{
}

/// A provider whose events are put in by hand.
#[derive(Debug)]
pub struct ManualCycleProvider {
    pending: Vec<OperationCycleEvent>,
}

impl ManualCycleProvider {
    /// A provider without events.
    pub fn new() -> (r: Self)
        ensures
            r.pending() == Seq::<OperationCycleEvent>::empty(),
    {
        ManualCycleProvider { pending: Vec::new() }
    }

    /// Adds an event, which the next poll returns.
    pub fn push(&mut self, event: OperationCycleEvent)
        ensures
            final(self).pending() == old(self).pending().push(event),
    {
        self.pending.push(event);
    }

    /// Adds the start of a cycle at the given time.
    pub fn start_cycle(&mut self, cycle_id: &str, now: IpcTimestamp)
        ensures
            final(self).pending().len() == old(self).pending().len() + 1,
            final(self).pending().drop_last() == old(self).pending(),
            final(self).pending().last().cycle_id@ == cycle_id@,
            final(self).pending().last().event_type == CycleEventType::Start,
            final(self).pending().last().timestamp == now,
            final(self).pending().last().source == CycleSource::Manual,
    {
        self.pending.push(
            OperationCycleEvent {
                cycle_id: String::from_str(cycle_id),
                event_type: CycleEventType::Start,
                timestamp: now,
                source: CycleSource::Manual,
            },
        );
        assert(self.pending@.drop_last() =~= old(self).pending@);
    }

    /// Adds the end of a cycle at the given time.
    pub fn stop_cycle(&mut self, cycle_id: &str, now: IpcTimestamp)
        ensures
            final(self).pending().len() == old(self).pending().len() + 1,
            final(self).pending().drop_last() == old(self).pending(),
            final(self).pending().last().cycle_id@ == cycle_id@,
            final(self).pending().last().event_type == CycleEventType::Stop,
            final(self).pending().last().timestamp == now,
            final(self).pending().last().source == CycleSource::Manual,
    {
        self.pending.push(
            OperationCycleEvent {
                cycle_id: String::from_str(cycle_id),
                event_type: CycleEventType::Stop,
                timestamp: now,
                source: CycleSource::Manual,
            },
        );
        assert(self.pending@.drop_last() =~= old(self).pending@);
    }
}

impl OperationCycleProvider for ManualCycleProvider {
    closed spec fn pending(&self) -> Seq<OperationCycleEvent> {
        self.pending@
    }

    fn poll(&mut self) -> (r: Vec<OperationCycleEvent>) {
        let mut taken: Vec<OperationCycleEvent> = Vec::new();
        std::mem::swap(&mut taken, &mut self.pending);
        taken
    }
}

impl Default for ManualCycleProvider {
    fn default() -> (r: Self)
        ensures
            r.pending() == Seq::<OperationCycleEvent>::empty(),
    {
        Self::new()
    }
}

/// A count is what stands under its name, and zero where nothing does.
pub proof fn law_count_is_looked_up(counts: Map<Seq<char>, u64>, name: Seq<char>)
    ensures
        counts.contains_key(name) ==> count_of(counts, name) == counts[name],
        !counts.contains_key(name) ==> count_of(counts, name) == 0,
{
}

/// Counting a cycle raises its count by one, until it cannot be raised any more.
pub proof fn law_one_cycle_is_one(counts: Map<Seq<char>, u64>, name: Seq<char>)
    ensures
        count_of(counts, name) < u64::MAX ==> count_of(counted(counts, name), name) == count_of(
            counts,
            name,
        ) + 1,
        count_of(counts, name) == u64::MAX ==> count_of(counted(counts, name), name) == u64::MAX,
        counted(counts, name).dom() == counts.dom().insert(name),
{
    assert(counted(counts, name).dom() =~= counts.dom().insert(name));
}

/// A count grows by the number of starts and restarts of its cycle. Stops and the events
/// of other cycles do not count.
pub proof fn law_starts_are_counted(
    counts: Map<Seq<char>, u64>,
    events: Seq<OperationCycleEvent>,
    name: Seq<char>,
)
    requires
        count_of(counts, name) + events.len() <= u64::MAX,
    ensures
        count_of(counts_after(counts, events), name) == count_of(counts, name) + events.filter(
            |e: OperationCycleEvent| !(e.event_type is Stop) && e.cycle_id@ == name,
        ).len(),
    decreases events.len(),
{
    reveal(Seq::filter);
    let f = |e: OperationCycleEvent| !(e.event_type is Stop) && e.cycle_id@ == name;
    if events.len() > 0 {
        let rest = events.drop_last();
        law_starts_are_counted(counts, rest, name);
        law_counts_grow(counts, rest, name);
    }
}

/// The cycles that a series of events begins are those of its starts and restarts, in
/// order.
pub proof fn law_starts_are_named(events: Seq<OperationCycleEvent>)
    ensures
        begun_cycles(events) == events.filter(
            |e: OperationCycleEvent| !(e.event_type is Stop),
        ).map_values(|e: OperationCycleEvent| e.cycle_id@),
    decreases events.len(),
{
    reveal(Seq::filter);
    let f = |e: OperationCycleEvent| !(e.event_type is Stop);
    let g = |e: OperationCycleEvent| e.cycle_id@;
    if events.len() > 0 {
        let rest = events.drop_last();
        law_starts_are_named(rest);
        assert(rest.filter(f).push(events.last()).map_values(g) =~= rest.filter(f).map_values(
            g,
        ).push(events.last().cycle_id@));
    } else {
        assert(events.filter(f).map_values(g) =~= seq![]);
    }
}

/// The counts after some cycles of one name.
pub open spec fn cycled(counts: Map<Seq<char>, u64>, name: Seq<char>, times: nat) -> Map<
    Seq<char>,
    u64,
>
    decreases times,
{
    if times == 0 {
        counts
    } else {
        counted(cycled(counts, name, (times - 1) as nat), name)
    }
}

/// Counting a cycle some times raises its count by as much, and no other count.
pub proof fn law_cycles_add_up(
    counts: Map<Seq<char>, u64>,
    name: Seq<char>,
    times: nat,
    other: Seq<char>,
)
    requires
        count_of(counts, name) + times <= u64::MAX,
    ensures
        count_of(cycled(counts, name, times), name) == count_of(counts, name) + times,
        other != name ==> count_of(cycled(counts, name, times), other) == count_of(counts, other),
    decreases times,
{
    if times > 0 {
        law_cycles_add_up(counts, name, (times - 1) as nat, other);
    }
}

} // verus!
