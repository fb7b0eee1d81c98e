//! The event loop of the diagnostic fault manager, one step at a time.
//!
//! Whoever runs the loop performs the actions that [`dfm_loop_step`] asks for and hands
//! back what came of them. A loop starts with [`DfmLoopAction::CheckShutdown`].

use vstd::prelude::*;
use vstd::string::*;

use super::diagnostic_fault_manager::DiagnosticFaultManager;
use super::fault_record_processor::processes_record;
use super::operation_cycle::{counts_after, OperationCycleEvent};
use super::query_server::answers_request;
use super::sovd_fault_storage::SovdFaultStateStorage;
use crate::common::enabling_condition::{EnablingConditionNotification, EnablingConditionStatus};
use crate::common::fixed_string::escaped;
use crate::common::query_protocol::{DfmQueryRequest, DfmQueryResponse};
use crate::common::sink_error::SinkError;
use crate::common::text::chars_of;
use crate::common::types::DiagnosticEvent;

verus! {

/// Time between two rounds of the event loop, unless it is told otherwise, in
/// nanoseconds.
pub const DEFAULT_DFM_CYCLE_TIME_NANOS: u128 = 10_000_000;

/// Why a transport cannot be set up.
#[derive(Clone, Debug, PartialEq, Eq)]
#[non_exhaustive]
pub enum TransportInitError {
    /// The node cannot be created.
    NodeCreation(String),
    /// A service or a port cannot be created.
    ServiceCreation(String),
}

impl TransportInitError {
    /// The message of the error.
    pub open spec fn message(self) -> Seq<char> {
        match self {
            TransportInitError::NodeCreation(m) => "node creation failed: "@ + m@,
            TransportInitError::ServiceCreation(m) => "service creation failed: "@ + m@,
        }
    }

    /// The message of the error.
    pub fn to_string(&self) -> (r: String)
        ensures
            r@ == self.message(),
    {
        match self {
            TransportInitError::NodeCreation(m) => String::from_str(
                "node creation failed: ",
            ).concat(m.as_str()),
            TransportInitError::ServiceCreation(m) => String::from_str(
                "service creation failed: ",
            ).concat(m.as_str()),
        }
    }
}

/// What came of an action of the loop.
#[derive(Debug)]
pub enum DfmLoopEvent {
    /// Whether a shutdown is asked for.
    ShutdownChecked(bool),
    /// A round has passed; `Ok(false)` means that the transport has died.
    Waited(Result<bool, SinkError>),
    /// The operation-cycle events that the provider had.
    CyclesPolled(Vec<OperationCycleEvent>),
    /// The next diagnostic event, if there was one.
    Received(Result<Option<DiagnosticEvent>, SinkError>),
    /// Something was published.
    Published(Result<(), SinkError>),
    /// The next query request, if there was one.
    Requested(Result<Option<DfmQueryRequest>, SinkError>),
    /// The answer to a query was sent.
    Responded(Result<(), SinkError>),
}

/// What the loop is to do next.
#[derive(Debug)]
pub enum DfmLoopAction {
    /// Find out whether a shutdown is asked for.
    CheckShutdown,
    /// Wait for one round.
    Wait,
    /// Poll the provider of operation cycles.
    PollCycles,
    /// Take the next diagnostic event, without waiting.
    Receive,
    /// Tell the reporters whether their catalog is the right one.
    PublishHashResponse(bool),
    /// Tell the reporters that an enabling condition changed.
    PublishNotification(EnablingConditionNotification),
    /// Take the next query request, without waiting.
    ReceiveRequest,
    /// Answer the query request.
    SendResponse(DfmQueryResponse),
    /// Leave the loop.
    Stop,
}

/// The two differ at most in the storage, the processor, the enabling conditions and
/// the counts of operation cycles.
pub open spec fn same_setup<S: SovdFaultStateStorage>(
    a: DiagnosticFaultManager<S>,
    b: DiagnosticFaultManager<S>,
) -> bool {
    &&& a.registry == b.registry
    &&& a.processor.catalogs() == b.processor.catalogs()
    &&& a.query_server == b.query_server
    &&& a.has_cycle_provider == b.has_cycle_provider
}

/// What a diagnostic event does to the manager, and what is to be done next: hash
/// checks are answered, changes of enabling conditions are passed on, and everything
/// else goes on with the next event. Faults are processed whatever the enabling
/// conditions say.
pub open spec fn handles_event<S: SovdFaultStateStorage>(
    before: DiagnosticFaultManager<S>,
    after: DiagnosticFaultManager<S>,
    event: DiagnosticEvent,
    now: u128,
    now_secs: u64,
    action: DfmLoopAction,
) -> bool {
    match event {
        DiagnosticEvent::Fault((path, record)) => {
            &&& action == DfmLoopAction::Receive
            &&& after.ec_registry == before.ec_registry
            &&& after.cycle_tracker == before.cycle_tracker
            &&& processes_record(
                before.processor.catalogs(),
                before.processor@,
                after.processor@,
                &before.storage,
                &after.storage,
                before.cycle_tracker@,
                escaped(path@),
                record,
                now,
                now_secs,
            )
        },
        DiagnosticEvent::Hash((path, hash)) => {
            let catalogs = before.processor.catalogs();
            &&& after == before
            &&& action == DfmLoopAction::PublishHashResponse(
                catalogs.contains_key(escaped(path@)) && catalogs[escaped(path@)].hash() == hash@,
            )
        },
        DiagnosticEvent::EnablingConditionRegister(entity) => {
            let known = before.ec_registry@;
            &&& action == DfmLoopAction::Receive
            &&& after.storage == before.storage
            &&& after.processor == before.processor
            &&& after.cycle_tracker == before.cycle_tracker
            &&& after.ec_registry@ == if known.contains_key(chars_of(entity@)) {
                known
            } else {
                known.insert(chars_of(entity@), EnablingConditionStatus::Inactive)
            }
        },
        DiagnosticEvent::EnablingConditionStatusChange((id, status)) => {
            let known = before.ec_registry@;
            let name = chars_of(id@);
            &&& after.storage == before.storage
            &&& after.processor == before.processor
            &&& after.cycle_tracker == before.cycle_tracker
            &&& after.ec_registry@ == known.insert(name, status)
            &&& action == if known.contains_key(name) && known[name] == status {
                DfmLoopAction::Receive
            } else {
                DfmLoopAction::PublishNotification(EnablingConditionNotification { id, status })
            }
        },
    }
}

/// What one step of the loop does to the manager, and what is to be done next.
pub open spec fn loop_steps<S: SovdFaultStateStorage>(
    before: DiagnosticFaultManager<S>,
    after: DiagnosticFaultManager<S>,
    event: DfmLoopEvent,
    now: u128,
    now_secs: u64,
    action: DfmLoopAction,
) -> bool {
    match event {
        DfmLoopEvent::ShutdownChecked(asked) => {
            &&& after == before
            &&& action == if asked {
                DfmLoopAction::Stop
            } else {
                DfmLoopAction::Wait
            }
        },
        DfmLoopEvent::Waited(outcome) => {
            &&& after == before
            &&& action == if outcome != Ok::<bool, SinkError>(true) {
                DfmLoopAction::Stop
            } else if before.has_cycle_provider {
                DfmLoopAction::PollCycles
            } else {
                DfmLoopAction::Receive
            }
        },
        DfmLoopEvent::CyclesPolled(events) => {
            &&& action == DfmLoopAction::Receive
            &&& after.storage == before.storage
            &&& after.processor == before.processor
            &&& after.ec_registry == before.ec_registry
            &&& after.cycle_tracker@ == counts_after(before.cycle_tracker@, events@)
        },
        DfmLoopEvent::Received(Ok(Some(e))) => handles_event(
            before,
            after,
            e,
            now,
            now_secs,
            action,
        ),
        DfmLoopEvent::Received(_) => {
            &&& after == before
            &&& action == if before.query_server is Some {
                DfmLoopAction::ReceiveRequest
            } else {
                DfmLoopAction::CheckShutdown
            }
        },
        DfmLoopEvent::Published(_) => after == before && action == DfmLoopAction::Receive,
        DfmLoopEvent::Requested(Ok(Some(request))) => match before.query_server {
            Some(server) => {
                &&& after.processor == before.processor
                &&& after.ec_registry == before.ec_registry
                &&& after.cycle_tracker == before.cycle_tracker
                &&& action matches DfmLoopAction::SendResponse(resp)
                &&& answers_request(
                    server.sovd_manager.registry@,
                    &before.storage,
                    &after.storage,
                    request,
                    resp,
                )
            },
            None => after == before && action == DfmLoopAction::CheckShutdown,
        },
        DfmLoopEvent::Requested(_) => after == before && action == DfmLoopAction::CheckShutdown,
        DfmLoopEvent::Responded(outcome) => {
            &&& after == before
            &&& action == if outcome is Ok {
                DfmLoopAction::ReceiveRequest
            } else {
                DfmLoopAction::CheckShutdown
            }
        },
    }
}

/// Handles a diagnostic event. `now` is the time on the monotonic clock, `now_secs` the
/// time of day in seconds since the Unix epoch.
pub fn handle_event<S: SovdFaultStateStorage>(
    dfm: &mut DiagnosticFaultManager<S>,
    event: &DiagnosticEvent,
    now: u128,
    now_secs: u64,
) -> (action: DfmLoopAction)
    ensures
        same_setup(*old(dfm), *final(dfm)),
        handles_event(*old(dfm), *final(dfm), *event, now, now_secs, action),
{
    match event {
        DiagnosticEvent::Fault(e) => {
            dfm.processor.process_record(
                &mut dfm.storage,
                &dfm.cycle_tracker,
                &e.0,
                &e.1,
                now,
                now_secs,
            );
            DfmLoopAction::Receive
        },
        DiagnosticEvent::Hash(e) => {
            let matching: bool = dfm.processor.check_hash_sum(&e.0, &e.1);
            DfmLoopAction::PublishHashResponse(matching)
        },
        DiagnosticEvent::EnablingConditionRegister(entity) => {
            let name = entity.to_text();
            let _ = dfm.ec_registry.register(name.as_str());
            DfmLoopAction::Receive
        },
        DiagnosticEvent::EnablingConditionStatusChange(e) => {
            let name = e.0.to_text();
            match dfm.ec_registry.update_status(name.as_str(), e.1) {
                Some(status) => DfmLoopAction::PublishNotification(
                    EnablingConditionNotification { id: e.0, status },
                ),
                None => DfmLoopAction::Receive,
            }
        },
    }
}

/// Takes what came of the last action and decides on the next one.
pub fn dfm_loop_step<S: SovdFaultStateStorage>(
    dfm: &mut DiagnosticFaultManager<S>,
    event: &DfmLoopEvent,
    now: u128,
    now_secs: u64,
) -> (action: DfmLoopAction)
    ensures
        same_setup(*old(dfm), *final(dfm)),
        loop_steps(*old(dfm), *final(dfm), *event, now, now_secs, action),
{
    match event {
        DfmLoopEvent::ShutdownChecked(asked) => if *asked {
            DfmLoopAction::Stop
        } else {
            DfmLoopAction::Wait
        },
        DfmLoopEvent::Waited(Ok(true)) => if dfm.has_cycle_provider {
            DfmLoopAction::PollCycles
        } else {
            DfmLoopAction::Receive
        },
        DfmLoopEvent::Waited(_) => DfmLoopAction::Stop,
        DfmLoopEvent::CyclesPolled(events) => {
            let _ = dfm.cycle_tracker.apply_events(events.as_slice());
            DfmLoopAction::Receive
        },
        DfmLoopEvent::Received(Ok(Some(e))) => handle_event(dfm, e, now, now_secs),
        DfmLoopEvent::Received(_) => if dfm.query_server.is_some() {
            DfmLoopAction::ReceiveRequest
        } else {
            DfmLoopAction::CheckShutdown
        },
        DfmLoopEvent::Published(_) => DfmLoopAction::Receive,
        DfmLoopEvent::Requested(Ok(Some(request))) => match &dfm.query_server {
            Some(server) => DfmLoopAction::SendResponse(
                server.handle_request(&mut dfm.storage, request),
            ),
            None => DfmLoopAction::CheckShutdown,
        },
        DfmLoopEvent::Requested(_) => DfmLoopAction::CheckShutdown,
        DfmLoopEvent::Responded(outcome) => if outcome.is_ok() {
            DfmLoopAction::ReceiveRequest
        } else {
            DfmLoopAction::CheckShutdown
        },
    }
}

/// Whatever the enabling conditions are, a fault report does the same.
pub proof fn law_conditions_do_not_gate_faults<S: SovdFaultStateStorage>(
    before: DiagnosticFaultManager<S>,
    after: DiagnosticFaultManager<S>,
    event: DiagnosticEvent,
    now: u128,
    now_secs: u64,
    action: DfmLoopAction,
    other: super::enabling_condition_registry::EnablingConditionRegistry,
)
    requires
        event is Fault,
        handles_event(before, after, event, now, now_secs, action),
    ensures
        handles_event(
            (DiagnosticFaultManager { ec_registry: other, ..before }),
            (DiagnosticFaultManager { ec_registry: other, ..after }),
            event,
            now,
            now_secs,
            action,
        ),
{
}

/// The reporters are told of an enabling condition exactly when its status changed: a
/// second report of the same status is not passed on.
pub proof fn law_notifications_report_changes<S: SovdFaultStateStorage>(
    first: DiagnosticFaultManager<S>,
    second: DiagnosticFaultManager<S>,
    third: DiagnosticFaultManager<S>,
    event: DiagnosticEvent,
    now: u128,
    now_secs: u64,
    action: DfmLoopAction,
    next_action: DfmLoopAction,
)
    requires
        event is EnablingConditionStatusChange,
        handles_event(first, second, event, now, now_secs, action),
        handles_event(second, third, event, now, now_secs, next_action),
    ensures
        next_action == DfmLoopAction::Receive,
        third.ec_registry@ == second.ec_registry@,
{
    let (id, status) = event->EnablingConditionStatusChange_0;
    assert(second.ec_registry@.insert(chars_of(id@), status) =~= second.ec_registry@);
}

/// The loop ends only where a shutdown is asked for or the transport has died.
pub proof fn law_loop_ends_on_demand<S: SovdFaultStateStorage>(
    before: DiagnosticFaultManager<S>,
    after: DiagnosticFaultManager<S>,
    event: DfmLoopEvent,
    now: u128,
    now_secs: u64,
    action: DfmLoopAction,
)
    requires
        loop_steps(before, after, event, now, now_secs, action),
    ensures
        action is Stop <==> event == DfmLoopEvent::ShutdownChecked(true) || (
        event matches DfmLoopEvent::Waited(o) && o != Ok::<bool, SinkError>(true)),
{
}

/// The order of the loop. A round begins with a look for a shutdown and a wait; then come
/// the operation cycles, if somebody provides them, all diagnostic events that have
/// arrived, and all queries, if they are answered.
pub proof fn law_order_of_the_loop<S: SovdFaultStateStorage>(
    before: DiagnosticFaultManager<S>,
    after: DiagnosticFaultManager<S>,
    event: DfmLoopEvent,
    now: u128,
    now_secs: u64,
    action: DfmLoopAction,
)
    requires
        loop_steps(before, after, event, now, now_secs, action),
    ensures
        event == DfmLoopEvent::ShutdownChecked(false) ==> action is Wait,
        event == DfmLoopEvent::Waited(Ok(true)) && before.has_cycle_provider
            ==> action is PollCycles,
        event == DfmLoopEvent::Waited(Ok(true)) && !before.has_cycle_provider ==> action is Receive,
        event is CyclesPolled ==> action is Receive,
        event is Published ==> action is Receive,
        event matches DfmLoopEvent::Received(o) ==> (o is Err || o->Ok_0 is None) ==> if before.query_server
            is Some {
            action is ReceiveRequest
        } else {
            action is CheckShutdown
        },
        event matches DfmLoopEvent::Received(o) ==> (o is Ok && o->Ok_0 is Some ==> action is Receive
            || action is PublishHashResponse || action is PublishNotification),
        event matches DfmLoopEvent::Requested(o) ==> (o is Ok && o->Ok_0 is Some
            && before.query_server is Some <==> action is SendResponse),
        event matches DfmLoopEvent::Requested(o) ==> (action is SendResponse
            || action is CheckShutdown),
        event == DfmLoopEvent::Responded(Ok(())) ==> action is ReceiveRequest,
        event matches DfmLoopEvent::Responded(Err(_)) ==> action is CheckShutdown,
{
}

/// Only diagnostic events, polled operation cycles and queries that are answered change
/// the manager.
pub proof fn law_what_changes_the_manager<S: SovdFaultStateStorage>(
    before: DiagnosticFaultManager<S>,
    after: DiagnosticFaultManager<S>,
    event: DfmLoopEvent,
    now: u128,
    now_secs: u64,
    action: DfmLoopAction,
)
    requires
        loop_steps(before, after, event, now, now_secs, action),
        event is ShutdownChecked || event is Waited || event is Published || event is Responded || (
        event matches DfmLoopEvent::Received(o) && (o is Err || o->Ok_0 is None)) || (
        event matches DfmLoopEvent::Requested(o) && (o is Err || o->Ok_0 is None
            || before.query_server is None)),
    ensures
        after == before,
{
}

/// Polled operation cycles are counted one after the other, and touch nothing else.
pub proof fn law_polled_cycles_are_counted<S: SovdFaultStateStorage>(
    before: DiagnosticFaultManager<S>,
    after: DiagnosticFaultManager<S>,
    events: Vec<OperationCycleEvent>,
    now: u128,
    now_secs: u64,
    action: DfmLoopAction,
)
    requires
        loop_steps(before, after, DfmLoopEvent::CyclesPolled(events), now, now_secs, action),
    ensures
        after.cycle_tracker@ == counts_after(before.cycle_tracker@, events@),
        after.storage == before.storage,
        after.processor == before.processor,
        after.ec_registry == before.ec_registry,
{
}

/// A hash check is answered with whether the entity has a catalog with that hash, and
/// changes nothing.
pub proof fn law_hash_checks_are_answered<S: SovdFaultStateStorage>(
    before: DiagnosticFaultManager<S>,
    after: DiagnosticFaultManager<S>,
    event: DiagnosticEvent,
    now: u128,
    now_secs: u64,
    action: DfmLoopAction,
)
    requires
        event is Hash,
        handles_event(before, after, event, now, now_secs, action),
    ensures
        after == before,
        action is PublishHashResponse,
        ({
            let path = escaped(event->Hash_0.0@);
            let catalogs = before.processor.catalogs();
            &&& !catalogs.contains_key(path) ==> action->PublishHashResponse_0 == false
            &&& catalogs.contains_key(path) ==> action->PublishHashResponse_0 == (
            catalogs[path].hash() == event->Hash_0.1@)
        }),
{
}

/// The status of an enabling condition is the one that was reported last; a condition that
/// is only registered is inactive, and registering a known one changes nothing.
pub proof fn law_condition_has_its_last_status<S: SovdFaultStateStorage>(
    before: DiagnosticFaultManager<S>,
    after: DiagnosticFaultManager<S>,
    event: DiagnosticEvent,
    now: u128,
    now_secs: u64,
    action: DfmLoopAction,
    other: Seq<char>,
)
    requires
        event is EnablingConditionRegister || event is EnablingConditionStatusChange,
        handles_event(before, after, event, now, now_secs, action),
    ensures
        after.storage == before.storage,
        after.processor == before.processor,
        after.cycle_tracker == before.cycle_tracker,
        ({
            let name = if event is EnablingConditionRegister {
                chars_of(event->EnablingConditionRegister_0@)
            } else {
                chars_of(event->EnablingConditionStatusChange_0.0@)
            };
            let known = before.ec_registry@;
            let now_known = after.ec_registry@;
            &&& now_known.contains_key(name)
            &&& event is EnablingConditionStatusChange ==> now_known[name]
                == event->EnablingConditionStatusChange_0.1
            &&& event is EnablingConditionRegister && known.contains_key(name) ==> now_known[name]
                == known[name]
            &&& event is EnablingConditionRegister && !known.contains_key(name) ==> now_known[name]
                == EnablingConditionStatus::Inactive
            &&& other != name ==> now_known.contains_key(other) == known.contains_key(other) && (
            known.contains_key(other) ==> now_known[other] == known[other])
        }),
{
}

/// The reporters are told of a condition exactly if its status was not known to be the
/// reported one; they learn its name and its status. A registration tells them nothing.
pub proof fn law_who_is_told_of_a_condition<S: SovdFaultStateStorage>(
    before: DiagnosticFaultManager<S>,
    after: DiagnosticFaultManager<S>,
    event: DiagnosticEvent,
    now: u128,
    now_secs: u64,
    action: DfmLoopAction,
)
    requires
        handles_event(before, after, event, now, now_secs, action),
    ensures
        event is EnablingConditionRegister || event is Fault ==> action is Receive,
        event matches DiagnosticEvent::EnablingConditionStatusChange(e) ==> {
            let known = before.ec_registry@;
            let name = chars_of(e.0@);
            &&& action is Receive || action is PublishNotification
            &&& action is Receive <==> known.contains_key(name) && known[name] == e.1
            &&& action is PublishNotification ==> action->PublishNotification_0.id == e.0
                && action->PublishNotification_0.status == e.1
        },
{
}

/// A fault report is processed for the entity that it names, and touches neither the
/// conditions nor the counts of cycles.
pub proof fn law_fault_reports_are_processed<S: SovdFaultStateStorage>(
    before: DiagnosticFaultManager<S>,
    after: DiagnosticFaultManager<S>,
    event: DiagnosticEvent,
    now: u128,
    now_secs: u64,
    action: DfmLoopAction,
)
    requires
        event is Fault,
        handles_event(before, after, event, now, now_secs, action),
    ensures
        after.ec_registry == before.ec_registry,
        after.cycle_tracker == before.cycle_tracker,
        processes_record(
            before.processor.catalogs(),
            before.processor@,
            after.processor@,
            &before.storage,
            &after.storage,
            before.cycle_tracker@,
            escaped(event->Fault_0.0@),
            event->Fault_0.1,
            now,
            now_secs,
        ),
{
}

/// The message of a transport error names what failed; the details stand behind it.
pub proof fn law_transport_messages_name_the_cause(m: String)
    ensures
        TransportInitError::NodeCreation(m).message() == "node creation failed: "@ + m@,
        TransportInitError::ServiceCreation(m).message() == "service creation failed: "@ + m@,
{
}

} // verus!
