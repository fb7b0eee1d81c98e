//! Enabling conditions on the reporter side: who provides them, who watches them, and
//! what is passed on when one changes.

use vstd::prelude::*;
use vstd::string::*;
use vstd::utf8::*;

use super::sink::FaultSinkApi;
use crate::common::assoc_map::AssocMap;
use crate::common::enabling_condition::EnablingConditionStatus;
use crate::common::fixed_string::{all_string_bytes, is_string_byte, stored_bytes};
use crate::common::sink_error::SinkError;
use crate::common::text::{chars_of, lemma_ascii_chars};
use crate::common::types::{to_static_short_string, DiagnosticEvent, ShortString};

verus! {

/// Why an operation on enabling conditions fails.
#[derive(Debug)]
#[non_exhaustive]
pub enum EnablingConditionError {
    /// The condition is registered already; holds its name.
    AlreadyRegistered(String),
    /// There is no manager of enabling conditions.
    NotInitialized,
    /// The name does not fit the transport.
    EntityTooLong,
    /// The transport failed.
    Transport(SinkError),
    /// Anything else.
    InternalError(String),
}

impl EnablingConditionError {
    /// The message of the error.
    pub open spec fn message(self) -> Seq<char> {
        match self {
            EnablingConditionError::AlreadyRegistered(name) => "enabling condition '"@ + name@
                + "' already registered"@,
            EnablingConditionError::NotInitialized => "FaultApi not initialized or dropped"@,
            EnablingConditionError::EntityTooLong => "entity name too long for IPC transport"@,
            EnablingConditionError::Transport(e) => "IPC transport error: "@ + e.message(),
            EnablingConditionError::InternalError(m) => "internal error: "@ + m@,
        }
    }

    /// The message of the error.
    pub fn to_string(&self) -> (r: String)
        ensures
            r@ == self.message(),
    {
        match self {
            EnablingConditionError::AlreadyRegistered(name) => {
                let mut text = String::from_str("enabling condition '");
                text.append(name.as_str());
                text.append("' already registered");
                text
            },
            EnablingConditionError::NotInitialized => String::from_str(
                "FaultApi not initialized or dropped",
            ),
            EnablingConditionError::EntityTooLong => String::from_str(
                "entity name too long for IPC transport",
            ),
            EnablingConditionError::Transport(e) => {
                let text = e.to_string();
                String::from_str("IPC transport error: ").concat(text.as_str())
            },
            EnablingConditionError::InternalError(m) => String::from_str("internal error: ").concat(
                m.as_str(),
            ),
        }
    }
}

/// Is told when a watched condition changes.
pub trait EnablingConditionCallback {
    /// The condition with the given name has a new status.
    fn on_condition_change(&self, id: &str, status: EnablingConditionStatus);
}

/// What a provider holds of its condition.
#[derive(Clone, Copy, Debug)]
pub struct EnablingCondition {
    /// Name of the condition.
    pub id: ShortString,
}

/// What a watcher holds of its registration.
#[derive(Clone, Copy, Debug, PartialEq, Eq, Structural)]
pub struct FaultMonitor {
    /// Number of the registration.
    pub monitor_id: u64,
}

/// The number of the registration after one with number `n`.
pub open spec fn next_number(n: u64) -> u64 {
    if n < u64::MAX {
        (n + 1) as u64
    } else {
        0
    }
}

/// A registered watcher.
#[derive(Debug)]
pub struct MonitorEntry {
    /// Number of the registration.
    pub id: u64,
    /// Names of the watched conditions.
    pub condition_ids: Vec<String>,
}

impl MonitorEntry {
    /// The watcher watches the condition.
    pub open spec fn watches(self, name: Seq<char>) -> bool {
        exists|i: int| 0 <= i < self.condition_ids@.len() && (#[trigger] self.condition_ids@[i])@
            == name
    }
}

/// The numbers of the watchers of a condition, in the order of their registration.
pub open spec fn watchers(monitors: Seq<MonitorEntry>, name: Seq<char>) -> Seq<u64>
    decreases monitors.len(),
{
    if monitors.len() == 0 {
        seq![]
    } else if monitors.last().watches(name) {
        watchers(monitors.drop_last(), name).push(monitors.last().id)
    } else {
        watchers(monitors.drop_last(), name)
    }
}

/// The watchers without those of the given number.
pub open spec fn without(monitors: Seq<MonitorEntry>, id: u64) -> Seq<MonitorEntry>
    decreases monitors.len(),
{
    if monitors.len() == 0 {
        seq![]
    } else if monitors.last().id != id {
        without(monitors.drop_last(), id).push(monitors.last())
    } else {
        without(monitors.drop_last(), id)
    }
}

/// The condition does not have the status yet.
pub open spec fn changes(
    conditions: Map<Seq<char>, EnablingConditionStatus>,
    name: Seq<char>,
    status: EnablingConditionStatus,
) -> bool {
    !(conditions.contains_key(name) && conditions[name] == status)
}

/// Sending an event gives `r` and leaves the sink behind as `after`; without a sink
/// nothing is sent.
pub open spec fn passed_on<K: FaultSinkApi>(
    before: Option<K>,
    event: DiagnosticEvent,
    r: Result<(), SinkError>,
    after: Option<K>,
) -> bool {
    match before {
        Some(k) => after matches Some(j) && k.sent(event, r, &j),
        None => r == Ok::<(), SinkError>(()) && after is None,
    }
}

/// Keeps the status of the conditions and the watchers. It says which watchers are to be
/// told of a change; telling them is up to its owner.
#[derive(Debug)]
pub struct EnablingConditionManager<K: FaultSinkApi> {
    /// Status of the conditions by name.
    pub conditions: AssocMap<String, EnablingConditionStatus>,
    /// The watchers.
    pub monitors: Vec<MonitorEntry>,
    /// Number of the next registration.
    pub next_monitor_id: u64,
    /// The way to the fault manager, if there is one.
    pub sink: Option<K>,
}

/// What registering a condition does. It fails when the name does not fit the transport
/// or the condition is known already; otherwise the condition is inactive at first and
/// is announced, and that the announcement fails does not matter.
pub open spec fn registers<K: FaultSinkApi>(
    before: EnablingConditionManager<K>,
    after: EnablingConditionManager<K>,
    entity: Seq<char>,
    r: Result<EnablingCondition, EnablingConditionError>,
) -> bool {
    match stored_bytes(encode_utf8(entity), 64) {
        Err(_) => r == Err::<EnablingCondition, _>(EnablingConditionError::EntityTooLong) && after
            == before,
        Ok(bytes) => if before.conditions@.contains_key(entity) {
            &&& r matches Err(EnablingConditionError::AlreadyRegistered(name))
            &&& name@ == entity
            &&& after == before
        } else {
            &&& r matches Ok(c)
            &&& c.id@ == bytes
            &&& after.monitors == before.monitors
            &&& after.next_monitor_id == before.next_monitor_id
            &&& after.conditions@ == before.conditions@.insert(
                entity,
                EnablingConditionStatus::Inactive,
            )
            &&& exists|sent: Result<(), SinkError>| #[trigger]
                passed_on(
                    before.sink,
                    DiagnosticEvent::EnablingConditionRegister(c.id),
                    sent,
                    after.sink,
                )
        },
    }
}

impl<K: FaultSinkApi> EnablingConditionManager<K> {
    /// A manager without conditions, watchers and sink.
    pub fn new() -> (r: Self)
        ensures
            r.conditions@ == Map::<Seq<char>, EnablingConditionStatus>::empty(),
            r.monitors@ == Seq::<MonitorEntry>::empty(),
            r.next_monitor_id == 0,
            r.sink is None,
    {
        EnablingConditionManager {
            conditions: AssocMap::new(),
            monitors: Vec::new(),
            next_monitor_id: 0,
            sink: None,
        }
    }

    /// A manager with a sink, without conditions and watchers.
    pub fn with_sink(sink: K) -> (r: Self)
        ensures
            r.conditions@ == Map::<Seq<char>, EnablingConditionStatus>::empty(),
            r.monitors@ == Seq::<MonitorEntry>::empty(),
            r.next_monitor_id == 0,
            r.sink == Some(sink),
    {
        EnablingConditionManager {
            conditions: AssocMap::new(),
            monitors: Vec::new(),
            next_monitor_id: 0,
            sink: Some(sink),
        }
    }

    /// Gives the manager a sink.
    pub fn set_sink(&mut self, sink: K)
        ensures
            final(self).sink == Some(sink),
            final(self).conditions == old(self).conditions,
            final(self).monitors == old(self).monitors,
            final(self).next_monitor_id == old(self).next_monitor_id,
    {
        self.sink = Some(sink);
    }

    /// The sink, if there is one.
    pub fn get_sink(&self) -> (r: Option<&K>)
        ensures
            match self.sink {
                Some(k) => r == Some(&k),
                None => r is None,
            },
    {
        match &self.sink {
            Some(k) => Some(k),
            None => None,
        }
    }

    /// Sends an event, if there is a sink.
    fn pass_on(&mut self, event: DiagnosticEvent) -> (r: Result<(), SinkError>)
        ensures
            passed_on(old(self).sink, event, r, final(self).sink),
            final(self).conditions == old(self).conditions,
            final(self).monitors == old(self).monitors,
            final(self).next_monitor_id == old(self).next_monitor_id,
    {
        match &mut self.sink {
            Some(k) => k.send_event(event),
            None => Ok(()),
        }
    }

    /// Registers a condition and announces it.
    pub fn register_condition(&mut self, entity: &str) -> (r: Result<
        EnablingCondition,
        EnablingConditionError,
    >)
        ensures
            registers(*old(self), *final(self), entity@, r),
    {
        let id: ShortString = match to_static_short_string(entity) {
            Ok(id) => id,
            Err(_) => {
                return Err(EnablingConditionError::EntityTooLong);
            },
        };
        if self.conditions.get_str(entity).is_some() {
            return Err(EnablingConditionError::AlreadyRegistered(String::from_str(entity)));
        }
        self.conditions.insert(String::from_str(entity), EnablingConditionStatus::Inactive);
        let sent = self.pass_on(DiagnosticEvent::EnablingConditionRegister(id));
        assert(passed_on(
            old(self).sink,
            DiagnosticEvent::EnablingConditionRegister(id),
            sent,
            self.sink,
        ));
        Ok(EnablingCondition { id })
    }

    /// Takes note of the status of a condition, which need not be registered. Gives the
    /// watchers to be told, or nothing if the condition has the status already.
    pub fn note_status(&mut self, id: &ShortString, status: EnablingConditionStatus) -> (r: Option<
        Vec<u64>,
    >)
        ensures
            final(self).monitors == old(self).monitors,
            final(self).next_monitor_id == old(self).next_monitor_id,
            final(self).sink == old(self).sink,
            final(self).conditions@ == old(self).conditions@.insert(chars_of(id@), status),
            r is Some <==> changes(old(self).conditions@, chars_of(id@), status),
            r matches Some(told) ==> told@ == watchers(old(self).monitors@, chars_of(id@)),
    {
        let name = id.to_text();
        if let Some(current) = self.conditions.get(&name) {
            if *current == status {
                assert(self.conditions@ =~= self.conditions@.insert(name@, status));
                return None;
            }
        }
        let told = self.watchers_of(name.as_str());
        self.conditions.insert(name, status);
        Some(told)
    }

    /// Sends the status of a condition to the fault manager.
    pub fn send_status(&mut self, id: &ShortString, status: EnablingConditionStatus) -> (r: Result<
        (),
        SinkError,
    >)
        ensures
            passed_on(
                old(self).sink,
                DiagnosticEvent::EnablingConditionStatusChange((*id, status)),
                r,
                final(self).sink,
            ),
            final(self).conditions == old(self).conditions,
            final(self).monitors == old(self).monitors,
            final(self).next_monitor_id == old(self).next_monitor_id,
    {
        self.pass_on(DiagnosticEvent::EnablingConditionStatusChange((*id, status)))
    }

    /// Takes note of the status that a provider reports and sends it to the fault
    /// manager, unless the condition has it already. Gives the watchers to be told and
    /// what the sending gave. An owner who tells the watchers before it sends the status
    /// calls [`Self::note_status`] and [`Self::send_status`] in its place.
    pub fn report_status(&mut self, id: &ShortString, status: EnablingConditionStatus) -> (r: (
        Vec<u64>,
        Result<(), SinkError>,
    ))
        ensures
            final(self).monitors == old(self).monitors,
            final(self).next_monitor_id == old(self).next_monitor_id,
            final(self).conditions@ == old(self).conditions@.insert(chars_of(id@), status),
            if changes(old(self).conditions@, chars_of(id@), status) {
                &&& r.0@ == watchers(old(self).monitors@, chars_of(id@))
                &&& passed_on(
                    old(self).sink,
                    DiagnosticEvent::EnablingConditionStatusChange((*id, status)),
                    r.1,
                    final(self).sink,
                )
            } else {
                &&& r.0@ == Seq::<u64>::empty()
                &&& r.1 == Ok::<(), SinkError>(())
                &&& final(self).sink == old(self).sink
            },
    {
        match self.note_status(id, status) {
            Some(told) => {
                let sent = self.send_status(id, status);
                (told, sent)
            },
            None => (Vec::new(), Ok(())),
        }
    }

    /// Takes note of a status that the fault manager reports. Gives the watchers to be
    /// told.
    pub fn handle_remote_notification(
        &mut self,
        id: &ShortString,
        status: EnablingConditionStatus,
    ) -> (r: Vec<u64>)
        ensures
            final(self).monitors == old(self).monitors,
            final(self).next_monitor_id == old(self).next_monitor_id,
            final(self).sink == old(self).sink,
            final(self).conditions@ == old(self).conditions@.insert(chars_of(id@), status),
            r@ == if changes(old(self).conditions@, chars_of(id@), status) {
                watchers(old(self).monitors@, chars_of(id@))
            } else {
                Seq::<u64>::empty()
            },
    {
        match self.note_status(id, status) {
            Some(told) => told,
            None => Vec::new(),
        }
    }

    /// Registers a watcher of the given conditions.
    pub fn register_monitor(&mut self, condition_ids: Vec<String>) -> (r: FaultMonitor)
        ensures
            r.monitor_id == old(self).next_monitor_id,
            final(self).next_monitor_id == next_number(old(self).next_monitor_id),
            final(self).monitors@ == old(self).monitors@.push(
                (MonitorEntry { id: r.monitor_id, condition_ids }),
            ),
            final(self).conditions == old(self).conditions,
            final(self).sink == old(self).sink,
    {
        let id: u64 = self.next_monitor_id;
        self.next_monitor_id = id.wrapping_add(1);
        self.monitors.push(MonitorEntry { id, condition_ids });
        FaultMonitor { monitor_id: id }
    }

    /// Removes a watcher.
    pub fn unregister_monitor(&mut self, monitor_id: u64)
        ensures
            final(self).monitors@ == without(old(self).monitors@, monitor_id),
            final(self).next_monitor_id == old(self).next_monitor_id,
            final(self).conditions == old(self).conditions,
            final(self).sink == old(self).sink,
    {
        let mut all: Vec<MonitorEntry> = Vec::new();
        std::mem::swap(&mut all, &mut self.monitors);
        let ghost before = all@;
        let mut kept: Vec<MonitorEntry> = Vec::new();
        assert(before.skip(0) =~= before);
        assert(before.take(0) =~= seq![]);
        while all.len() > 0
            invariant
                all@.len() <= before.len(),
                all@ == before.skip(before.len() - all@.len()),
                kept@ == without(before.take(before.len() - all@.len()), monitor_id),
            decreases all@.len(),
        {
            let ghost n = before.len() - all@.len();
            let entry = all.remove(0);
            assert(all@ =~= before.skip(n + 1));
            assert(before.take(n + 1).drop_last() =~= before.take(n));
            assert(entry == before[n]);
            if entry.id != monitor_id {
                kept.push(entry);
            }
        }
        assert(before.take(before.len() as int) =~= before);
        self.monitors = kept;
    }

    /// The status of a condition.
    pub fn get_status(&self, entity: &str) -> (r: Option<EnablingConditionStatus>)
        ensures
            r == (if self.conditions@.contains_key(entity@) {
                Some(self.conditions@[entity@])
            } else {
                None
            }),
    {
        match self.conditions.get_str(entity) {
            Some(status) => Some(*status),
            None => None,
        }
    }

    /// The numbers of the watchers of a condition, in the order of their registration.
    pub fn watchers_of(&self, name: &str) -> (r: Vec<u64>)
        ensures
            r@ == watchers(self.monitors@, name@),
    {
        let mut told: Vec<u64> = Vec::new();
        let mut i: usize = 0;
        assert(self.monitors@.take(0) =~= seq![]);
        while i < self.monitors.len()
            invariant
                i <= self.monitors@.len(),
                told@ == watchers(self.monitors@.take(i as int), name@),
            decreases self.monitors@.len() - i,
        {
            let entry = &self.monitors[i];
            assert(self.monitors@.take(i + 1).drop_last() =~= self.monitors@.take(i as int));
            if is_watching(entry, name) {
                told.push(entry.id);
            }
            i += 1;
        }
        assert(self.monitors@.take(i as int) =~= self.monitors@);
        told
    }
}

impl<K: FaultSinkApi> Default for EnablingConditionManager<K> {
    fn default() -> (r: Self)
        ensures
            r.conditions@ == Map::<Seq<char>, EnablingConditionStatus>::empty(),
            r.monitors@ == Seq::<MonitorEntry>::empty(),
            r.next_monitor_id == 0,
            r.sink is None,
    {
        Self::new()
    }
}

fn is_watching(entry: &MonitorEntry, name: &str) -> (r: bool)
    ensures
        r == entry.watches(name@),
{
    let wanted = String::from_str(name);
    let mut i: usize = 0;
    while i < entry.condition_ids.len()
        invariant
            i <= entry.condition_ids@.len(),
            wanted@ == name@,
            forall|j: int| 0 <= j < i ==> (#[trigger] entry.condition_ids@[j])@ != name@,
        decreases entry.condition_ids@.len() - i,
    {
        if entry.condition_ids[i] == wanted {
            return true;
        }
        i += 1;
    }
    false
}

impl EnablingCondition {
    /// Reports the status of the condition; see
    /// [`EnablingConditionManager::report_status`].
    pub fn report_status<K: FaultSinkApi>(
        &self,
        manager: &mut EnablingConditionManager<K>,
        status: EnablingConditionStatus,
    ) -> (r: (Vec<u64>, Result<(), SinkError>))
        ensures
            final(manager).monitors == old(manager).monitors,
            final(manager).next_monitor_id == old(manager).next_monitor_id,
            final(manager).conditions@ == old(manager).conditions@.insert(chars_of(self.id@), status),
            if changes(old(manager).conditions@, chars_of(self.id@), status) {
                &&& r.0@ == watchers(old(manager).monitors@, chars_of(self.id@))
                &&& passed_on(
                    old(manager).sink,
                    DiagnosticEvent::EnablingConditionStatusChange((self.id, status)),
                    r.1,
                    final(manager).sink,
                )
            } else {
                &&& r.0@ == Seq::<u64>::empty()
                &&& r.1 == Ok::<(), SinkError>(())
                &&& final(manager).sink == old(manager).sink
            },
    {
        manager.report_status(&self.id, status)
    }

    /// Name of the condition.
    pub fn id(&self) -> (r: &ShortString)
        ensures
            *r == self.id,
    {
        &self.id
    }
}

/// A watcher is told exactly of the conditions that it watches.
pub proof fn law_watchers_are_told(monitors: Seq<MonitorEntry>, name: Seq<char>, i: int)
    requires
        0 <= i < monitors.len(),
    ensures
        monitors[i].watches(name) ==> watchers(monitors, name).contains(monitors[i].id),
        watchers(monitors, name).len() <= monitors.len(),
    decreases monitors.len(),
{
    let rest = monitors.drop_last();
    if i < rest.len() {
        law_watchers_are_told(rest, name, i);
        let before = watchers(rest, name);
        if monitors[i].watches(name) {
            let k = choose|k: int| 0 <= k < before.len() && before[k] == monitors[i].id;
            assert(watchers(monitors, name)[k] == monitors[i].id);
        }
    } else {
        if rest.len() > 0 {
            law_watchers_are_told(rest, name, 0);
        }
        if monitors[i].watches(name) {
            let all = watchers(monitors, name);
            assert(all[all.len() - 1] == monitors[i].id);
        }
    }
}

/// Whoever is told watches the condition.
pub proof fn law_only_watchers_are_told(monitors: Seq<MonitorEntry>, name: Seq<char>, id: u64)
    requires
        watchers(monitors, name).contains(id),
    ensures
        exists|i: int| 0 <= i < monitors.len() && (#[trigger] monitors[i]).id == id
            && monitors[i].watches(name),
    decreases monitors.len(),
{
    let rest = monitors.drop_last();
    let all = watchers(monitors, name);
    let k = choose|k: int| 0 <= k < all.len() && all[k] == id;
    if monitors.last().watches(name) && k == all.len() - 1 {
        assert(monitors[monitors.len() - 1].id == id);
    } else {
        assert(watchers(rest, name)[k] == id);
        law_only_watchers_are_told(rest, name, id);
        let i = choose|i: int|
            0 <= i < rest.len() && (#[trigger] rest[i]).id == id && rest[i].watches(name);
        assert(monitors[i] == rest[i]);
    }
}

/// A watcher that was removed is told of nothing more; the others are told as before.
pub proof fn law_removed_watchers_are_silent(
    monitors: Seq<MonitorEntry>,
    id: u64,
    name: Seq<char>,
    other: u64,
)
    ensures
        !watchers(without(monitors, id), name).contains(id),
        other != id ==> watchers(without(monitors, id), name).contains(other) == watchers(
            monitors,
            name,
        ).contains(other),
    decreases monitors.len(),
{
    if monitors.len() > 0 {
        let rest = monitors.drop_last();
        let last = monitors.last();
        law_removed_watchers_are_silent(rest, id, name, other);
        let kept = without(rest, id);
        if last.id != id {
            assert(without(monitors, id).drop_last() =~= kept);
            assert(without(monitors, id).last() == last);
        }
        let a = watchers(kept, name);
        let b = watchers(rest, name);
        if last.watches(name) {
            lemma_pushed(a, last.id, id);
            lemma_pushed(a, last.id, other);
            lemma_pushed(b, last.id, other);
        }
    }
}

proof fn lemma_pushed(s: Seq<u64>, x: u64, y: u64)
    ensures
        s.push(x).contains(y) <==> s.contains(y) || x == y,
{
    let t = s.push(x);
    if s.contains(y) {
        let k = choose|k: int| 0 <= k < s.len() && s[k] == y;
        assert(t[k] == y);
    }
    if x == y {
        assert(t[s.len() as int] == y);
    }
    if t.contains(y) {
        let k = choose|k: int| 0 <= k < t.len() && t[k] == y;
        if k < s.len() {
            assert(s[k] == y);
        }
    }
}

/// Numbers of watchers are not used twice, as long as there are numbers left: if all are
/// below the next one, they stay so, and the new one differs from all others.
pub proof fn law_monitor_numbers_are_unique(
    monitors: Seq<MonitorEntry>,
    next: u64,
    entry: MonitorEntry,
)
    requires
        next < u64::MAX,
        forall|i: int| 0 <= i < monitors.len() ==> (#[trigger] monitors[i]).id < next,
        entry.id == next,
    ensures
        forall|i: int| 0 <= i < monitors.len() ==> (#[trigger] monitors[i]).id != entry.id,
        forall|i: int|
            0 <= i <= monitors.len() ==> (#[trigger] monitors.push(entry)[i]).id < next_number(
                next,
            ),
{
}

/// What is reported of a condition is noted under the name by which it was registered,
/// is asked for and is watched.
pub proof fn law_condition_keeps_its_name(entity: Seq<char>, id: ShortString)
    requires
        all_string_bytes(encode_utf8(entity)),
        id@ == encode_utf8(entity),
    ensures
        chars_of(id@) == entity,
{
    assert forall|i: int| 0 <= i < id@.len() implies #[trigger] id@[i] <= 0x7f by {
        assert(is_string_byte(id@[i]));
    }
    lemma_ascii_chars(entity);
}

/// A report of the status that a condition has already changes nothing.
pub proof fn law_repeated_status_is_ignored(
    conditions: Map<Seq<char>, EnablingConditionStatus>,
    name: Seq<char>,
    status: EnablingConditionStatus,
)
    ensures
        !changes(conditions.insert(name, status), name, status),
        !changes(conditions, name, status) ==> conditions.insert(name, status) == conditions,
{
    if !changes(conditions, name, status) {
        assert(conditions.insert(name, status) =~= conditions);
    }
}

/// A watcher watches exactly the conditions that it named.
pub proof fn law_watcher_watches_what_it_named(entry: MonitorEntry, i: int, name: Seq<char>)
    ensures
        0 <= i < entry.condition_ids@.len() ==> entry.watches(entry.condition_ids@[i]@),
        (forall|j: int|
            0 <= j < entry.condition_ids@.len() ==> (#[trigger] entry.condition_ids@[j])@ != name)
            ==> !entry.watches(name),
{
    if 0 <= i < entry.condition_ids@.len() {
        assert(entry.condition_ids@[i]@ == entry.condition_ids@[i]@);
    }
}

/// The watchers of a condition are told in the order of their registration, each as often
/// as it is registered.
pub proof fn law_watchers_are_told_in_order(monitors: Seq<MonitorEntry>, name: Seq<char>)
    ensures
        watchers(monitors, name) == monitors.filter(
            |m: MonitorEntry| m.watches(name),
        ).map_values(|m: MonitorEntry| m.id),
    decreases monitors.len(),
{
    reveal(Seq::filter);
    let f = |m: MonitorEntry| m.watches(name);
    let g = |m: MonitorEntry| m.id;
    if monitors.len() > 0 {
        let rest = monitors.drop_last();
        law_watchers_are_told_in_order(rest, name);
        assert(rest.filter(f).push(monitors.last()).map_values(g) =~= rest.filter(f).map_values(
            g,
        ).push(monitors.last().id));
    } else {
        assert(monitors.filter(f).map_values(g) =~= seq![]);
    }
}

/// Removing a watcher leaves the others as they are, in their order.
pub proof fn law_other_watchers_stay(monitors: Seq<MonitorEntry>, id: u64)
    ensures
        without(monitors, id) == monitors.filter(|m: MonitorEntry| m.id != id),
    decreases monitors.len(),
{
    reveal(Seq::filter);
    if monitors.len() > 0 {
        law_other_watchers_stay(monitors.drop_last(), id);
    }
}

/// A status is a change unless the condition has it already; a condition that is not known
/// changes with any status.
pub proof fn law_what_counts_as_change(
    conditions: Map<Seq<char>, EnablingConditionStatus>,
    name: Seq<char>,
    status: EnablingConditionStatus,
)
    ensures
        !conditions.contains_key(name) ==> changes(conditions, name, status),
        conditions.contains_key(name) ==> (changes(conditions, name, status) <==> conditions[name]
            != status),
{
}

/// Registrations are numbered one after the other.
pub proof fn law_registrations_are_numbered(n: u64)
    ensures
        n < u64::MAX ==> next_number(n) == n + 1,
        n == u64::MAX ==> next_number(n) == 0,
{
}

/// An event goes to the sink if there is one, which may answer it; without one nothing
/// happens and nothing fails.
pub proof fn law_events_go_to_the_sink<K: FaultSinkApi>(
    before: Option<K>,
    event: DiagnosticEvent,
    r: Result<(), SinkError>,
    after: Option<K>,
)
    requires
        passed_on(before, event, r, after),
    ensures
        before is None ==> r is Ok && after is None,
        before is Some ==> after is Some && before->0.sent(event, r, &after->0),
{
}

/// A condition is registered exactly if its name fits the transport and it is not known
/// yet. It is then known and not active, all other conditions and the watchers stay, and
/// its holder knows it under its name. A registration that fails changes nothing.
pub proof fn law_registration_of_a_condition<K: FaultSinkApi>(
    before: EnablingConditionManager<K>,
    after: EnablingConditionManager<K>,
    entity: Seq<char>,
    r: Result<EnablingCondition, EnablingConditionError>,
    other: Seq<char>,
)
    requires
        registers(before, after, entity, r),
    ensures
        r is Ok <==> encode_utf8(entity).len() <= 64 && all_string_bytes(encode_utf8(entity))
            && !before.conditions@.contains_key(entity),
        r matches Ok(c) ==> c.id@ == encode_utf8(entity),
        r is Ok ==> after.conditions@.contains_key(entity) && after.conditions@[entity]
            == EnablingConditionStatus::Inactive,
        r is Ok && other != entity ==> after.conditions@.contains_key(other)
            == before.conditions@.contains_key(other) && (before.conditions@.contains_key(other)
            ==> after.conditions@[other] == before.conditions@[other]),
        r is Ok ==> after.monitors == before.monitors,
        r is Err ==> after == before,
        r is Err && before.conditions@.contains_key(entity) && encode_utf8(entity).len() <= 64
            && all_string_bytes(encode_utf8(entity)) ==> r->Err_0 is AlreadyRegistered,
        encode_utf8(entity).len() > 64 || !all_string_bytes(encode_utf8(entity))
            ==> r->Err_0 is EntityTooLong,
{
}

/// A condition can be registered only once: a second attempt fails and changes nothing.
pub proof fn law_condition_is_registered_once<K: FaultSinkApi>(
    first: EnablingConditionManager<K>,
    second: EnablingConditionManager<K>,
    third: EnablingConditionManager<K>,
    entity: Seq<char>,
    r: Result<EnablingCondition, EnablingConditionError>,
    again: Result<EnablingCondition, EnablingConditionError>,
)
    requires
        registers(first, second, entity, r),
        registers(second, third, entity, again),
        r is Ok,
    ensures
        again is Err,
        again->Err_0 is AlreadyRegistered,
        third == second,
{
}

/// The message of an error names its cause, with the name of the condition or the message
/// of the transport.
pub proof fn law_condition_messages_name_the_cause(m: String, e: SinkError)
    ensures
        EnablingConditionError::AlreadyRegistered(m).message() == "enabling condition '"@ + m@
            + "' already registered"@,
        EnablingConditionError::NotInitialized.message() == "FaultApi not initialized or dropped"@,
        EnablingConditionError::EntityTooLong.message()
            == "entity name too long for IPC transport"@,
        EnablingConditionError::Transport(e).message() == "IPC transport error: "@ + e.message(),
        EnablingConditionError::InternalError(m).message() == "internal error: "@ + m@,
{
}

/// The status of a condition is handed out exactly if the condition is known, and its
/// watchers are those that watch it.
pub proof fn law_conditions_are_looked_up<K: FaultSinkApi>(
    manager: EnablingConditionManager<K>,
    name: &str,
    status: Option<EnablingConditionStatus>,
    told: Vec<u64>,
)
    requires
        call_ensures(EnablingConditionManager::<K>::get_status, (&manager, name), status),
        call_ensures(EnablingConditionManager::<K>::watchers_of, (&manager, name), told),
    ensures
        status is Some <==> manager.conditions@.contains_key(name@),
        status matches Some(s) ==> s == manager.conditions@[name@],
        told@ == manager.monitors@.filter(|m: MonitorEntry| m.watches(name@)).map_values(
            |m: MonitorEntry| m.id,
        ),
{
    law_watchers_are_told_in_order(manager.monitors@, name@);
}

} // verus!
