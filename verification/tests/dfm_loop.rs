use std::cell::{Cell, RefCell};
use std::collections::VecDeque;
use std::sync::Arc;

use fault_manager::common::catalog::{FaultCatalog, FaultCatalogBuilder, FaultCatalogConfig};
use fault_manager::common::enabling_condition::{
    EnablingConditionNotification, EnablingConditionStatus,
};
use fault_manager::common::fault::{
    ComplianceVec, FaultDescriptor, FaultId, FaultRecord, FaultSeverity, FaultType, IpcTimestamp,
    LifecyclePhase, LifecycleStage,
};
use fault_manager::common::ids::SourceId;
use fault_manager::common::query_protocol::{DfmQueryError, DfmQueryRequest, DfmQueryResponse};
use fault_manager::common::sink_error::SinkError;
use fault_manager::common::types::{
    to_static_long_string, to_static_short_string, DiagnosticEvent, LongString, MetadataVec,
    Sha256Vec,
};
use fault_manager::dfm_lib::diagnostic_fault_manager::DiagnosticFaultManager;
use fault_manager::dfm_lib::fault_catalog_registry::FaultCatalogRegistry;
use fault_manager::dfm_lib::fault_lib_communicator::{
    dfm_loop_step, DfmLoopAction, DfmLoopEvent, TransportInitError, DEFAULT_DFM_CYCLE_TIME_NANOS,
};
use fault_manager::dfm_lib::operation_cycle::{ManualCycleProvider, OperationCycleProvider};
use fault_manager::dfm_lib::query_ipc::get_all_faults_request;
use fault_manager::dfm_lib::sovd_fault_storage::{InMemoryStorage, SovdFaultStateStorage};
use fault_manager::dfm_lib::transport::DfmTransport;

/// A transport within the test.
struct Line {
    events: RefCell<VecDeque<DiagnosticEvent>>,
    hash_responses: RefCell<Vec<bool>>,
    notifications: RefCell<Vec<EnablingConditionNotification>>,
    requests: RefCell<VecDeque<DfmQueryRequest>>,
    answers: RefCell<Vec<DfmQueryResponse>>,
    rounds: Cell<u32>,
}

impl Line {
    fn new(events: Vec<DiagnosticEvent>) -> Self {
        Line {
            events: RefCell::new(events.into_iter().collect()),
            hash_responses: RefCell::new(vec![]),
            notifications: RefCell::new(vec![]),
            requests: RefCell::new(VecDeque::new()),
            answers: RefCell::new(vec![]),
            rounds: Cell::new(0),
        }
    }
}

impl DfmTransport for Line {
    fn receive_event(&self) -> Result<Option<DiagnosticEvent>, SinkError> {
        Ok(self.events.borrow_mut().pop_front())
    }

    fn publish_hash_response(&self, response: bool) -> Result<(), SinkError> {
        self.hash_responses.borrow_mut().push(response);
        Ok(())
    }

    fn publish_ec_notification(
        &self,
        notification: EnablingConditionNotification,
    ) -> Result<(), SinkError> {
        self.notifications.borrow_mut().push(notification);
        Ok(())
    }

    fn wait(&self, timeout: u128) -> Result<bool, SinkError> {
        assert_eq!(timeout, DEFAULT_DFM_CYCLE_TIME_NANOS);
        self.rounds.set(self.rounds.get() + 1);
        Ok(true)
    }
}

/// Runs the loop and asks for a shutdown after the given number of rounds.
fn run_loop(
    dfm: &mut DiagnosticFaultManager<InMemoryStorage>,
    line: &Line,
    rounds: u32,
    provider: Option<&RefCell<ManualCycleProvider>>,
) {
    let mut action = DfmLoopAction::CheckShutdown;
    loop {
        let event = match action {
            DfmLoopAction::CheckShutdown => {
                DfmLoopEvent::ShutdownChecked(line.rounds.get() >= rounds)
            },
            DfmLoopAction::Wait => {
                DfmLoopEvent::Waited(line.wait(DEFAULT_DFM_CYCLE_TIME_NANOS))
            },
            DfmLoopAction::PollCycles => {
                DfmLoopEvent::CyclesPolled(provider.unwrap().borrow_mut().poll())
            },
            DfmLoopAction::Receive => DfmLoopEvent::Received(line.receive_event()),
            DfmLoopAction::PublishHashResponse(b) => {
                DfmLoopEvent::Published(line.publish_hash_response(b))
            },
            DfmLoopAction::PublishNotification(n) => {
                DfmLoopEvent::Published(line.publish_ec_notification(n))
            },
            DfmLoopAction::ReceiveRequest => {
                DfmLoopEvent::Requested(Ok(line.requests.borrow_mut().pop_front()))
            },
            DfmLoopAction::SendResponse(r) => {
                line.answers.borrow_mut().push(r);
                DfmLoopEvent::Responded(Ok(()))
            },
            DfmLoopAction::Stop => return,
        };
        action = dfm_loop_step(dfm, &event, 1_000, 1_700_000_000);
    }
}

fn build_catalog(config: FaultCatalogConfig) -> FaultCatalog {
    let json = format!("{config:?}");
    FaultCatalogBuilder::new().cfg_struct(config, json).unwrap().build()
}

fn make_text_registry() -> Arc<FaultCatalogRegistry> {
    let config = FaultCatalogConfig {
        id: "test_entity".into(),
        version: 1,
        faults: vec![
            FaultDescriptor {
                id: FaultId::Text(to_static_short_string("fault_a").unwrap()),
                name: to_static_short_string("Fault A").unwrap(),
                summary: None,
                category: FaultType::Software,
                severity: FaultSeverity::Warn,
                compliance: ComplianceVec::new(),
                reporter_side_debounce: None,
                reporter_side_reset: None,
                manager_side_debounce: None,
                manager_side_reset: None,
            },
            FaultDescriptor {
                id: FaultId::Text(to_static_short_string("fault_b").unwrap()),
                name: to_static_short_string("Fault B").unwrap(),
                summary: None,
                category: FaultType::Hardware,
                severity: FaultSeverity::Error,
                compliance: ComplianceVec::new(),
                reporter_side_debounce: None,
                reporter_side_reset: None,
                manager_side_debounce: None,
                manager_side_reset: None,
            },
        ],
    };
    let catalog = build_catalog(config);
    Arc::new(FaultCatalogRegistry::new(vec![catalog]))
}

fn make_registry() -> Arc<FaultCatalogRegistry> {
    let config = FaultCatalogConfig {
        id: "test_entity".into(),
        version: 1,
        faults: vec![FaultDescriptor {
            id: FaultId::Numeric(42),
            name: to_static_short_string("Test fault").unwrap(),
            summary: None,
            category: FaultType::Software,
            severity: FaultSeverity::Warn,
            compliance: ComplianceVec::new(),
            reporter_side_debounce: None,
            reporter_side_reset: None,
            manager_side_debounce: None,
            manager_side_reset: None,
        }],
    };
    let catalog = build_catalog(config);
    Arc::new(FaultCatalogRegistry::new(vec![catalog]))
}

fn make_record(fault_id: FaultId, stage: LifecycleStage) -> FaultRecord {
    FaultRecord {
        id: fault_id,
        time: IpcTimestamp::default(),
        source: SourceId {
            entity: to_static_short_string("test").unwrap(),
            ecu: None,
            domain: None,
            sw_component: None,
            instance: None,
        },
        lifecycle_phase: LifecyclePhase::Running,
        lifecycle_stage: stage,
        env_data: MetadataVec::new(),
    }
}

#[test]
fn dfm_creates_and_drops_cleanly() {
    let dfm = DiagnosticFaultManager::new(InMemoryStorage::new(), make_text_registry());
    assert!(!dfm.has_cycle_provider);
    drop(dfm);
}

#[test]
fn dfm_with_cycle_provider_stores_provider() {
    let dfm = DiagnosticFaultManager::with_cycle_provider(
        InMemoryStorage::new(),
        make_text_registry(),
        true,
    );
    assert!(dfm.has_cycle_provider);
    drop(dfm);
}

#[test]
fn dfm_without_cycle_provider_returns_none() {
    let dfm = DiagnosticFaultManager::with_cycle_provider(
        InMemoryStorage::new(),
        make_text_registry(),
        false,
    );
    assert!(!dfm.has_cycle_provider);
    drop(dfm);
}

#[test]
fn dfm_returns_sovd_fault_manager() {
    let dfm = DiagnosticFaultManager::new(InMemoryStorage::new(), make_text_registry());

    let sovd_manager = dfm.create_sovd_fault_manager();
    let faults = sovd_manager.get_all_faults(&dfm.storage, "test_entity").unwrap();
    assert_eq!(faults.len(), 2, "Should return all descriptors from catalog");
}

#[test]
fn dfm_cycle_tracker_is_accessible() {
    let mut dfm = DiagnosticFaultManager::new(InMemoryStorage::new(), make_text_registry());

    let tracker = dfm.cycle_tracker();
    assert_eq!(tracker.get("power"), 0, "Empty tracker has no cycles");

    tracker.increment("power");
    assert_eq!(tracker.get("power"), 1);
}

#[test]
fn dfm_shutdown_is_idempotent() {
    let mut dfm1 = DiagnosticFaultManager::new(InMemoryStorage::new(), make_text_registry());
    let asked = DfmLoopEvent::ShutdownChecked(true);
    assert!(matches!(dfm_loop_step(&mut dfm1, &asked, 0, 0), DfmLoopAction::Stop));
    assert!(matches!(dfm_loop_step(&mut dfm1, &asked, 0, 0), DfmLoopAction::Stop));
    drop(dfm1);

    let dfm2 = DiagnosticFaultManager::new(InMemoryStorage::new(), make_text_registry());
    drop(dfm2);
}

#[test]
fn communicator_starts_and_shuts_down() {
    let mut dfm = DiagnosticFaultManager::new(InMemoryStorage::new(), make_registry());
    let line = Line::new(vec![]);
    run_loop(&mut dfm, &line, 3, None);
    assert_eq!(line.rounds.get(), 3);
}

#[test]
fn communicator_processes_fault_event() {
    let mut dfm = DiagnosticFaultManager::new(InMemoryStorage::new(), make_registry());
    let path = LongString::from_str_truncated("test_entity").unwrap();
    let record = make_record(FaultId::Numeric(42), LifecycleStage::Failed);
    let line = Line::new(vec![DiagnosticEvent::Fault((path, record))]);
    run_loop(&mut dfm, &line, 1, None);

    let state = dfm.storage.get("test_entity", &FaultId::Numeric(42)).unwrap();
    assert!(state.is_some(), "Communicator should have processed the fault event");
    let state = state.unwrap();
    assert!(state.test_failed);
    assert!(state.confirmed_dtc);
}

#[test]
fn communicator_handles_ec_registration() {
    let mut dfm = DiagnosticFaultManager::new(InMemoryStorage::new(), make_registry());
    let entity = to_static_short_string("engine.running").unwrap();
    let line = Line::new(vec![DiagnosticEvent::EnablingConditionRegister(entity)]);
    run_loop(&mut dfm, &line, 1, None);
    assert_eq!(
        dfm.ec_registry.get_status("engine.running"),
        Some(EnablingConditionStatus::Inactive)
    );
}

#[test]
fn communicator_exits_immediately_on_shutdown() {
    let mut dfm = DiagnosticFaultManager::new(InMemoryStorage::new(), make_registry());
    let line = Line::new(vec![]);
    run_loop(&mut dfm, &line, 0, None);
    assert_eq!(line.rounds.get(), 0);
}

#[test]
fn communicator_processes_multiple_events() {
    let mut dfm = DiagnosticFaultManager::new(InMemoryStorage::new(), make_text_registry());
    let path = LongString::from_str_truncated("test_entity").unwrap();
    let id_a = FaultId::Text(to_static_short_string("fault_a").unwrap());
    let id_b = FaultId::Text(to_static_short_string("fault_b").unwrap());
    let record_a = make_record(id_a, LifecycleStage::Failed);
    let record_b = make_record(id_b, LifecycleStage::Passed);
    let line = Line::new(vec![
        DiagnosticEvent::Fault((path, record_a)),
        DiagnosticEvent::Fault((path, record_b)),
    ]);
    run_loop(&mut dfm, &line, 1, None);

    let state_a = dfm.storage.get("test_entity", &id_a).unwrap();
    assert!(state_a.is_some(), "fault_a should be stored");
    assert!(state_a.unwrap().test_failed);

    let state_b = dfm.storage.get("test_entity", &id_b).unwrap();
    assert!(state_b.is_some(), "fault_b should be stored");
    assert!(!state_b.unwrap().test_failed);
}

#[test]
fn hash_checks_are_answered() {
    let registry = make_registry();
    let catalog = registry.get("test_entity").unwrap();
    let good = Sha256Vec::try_from(catalog.config_hash()).unwrap();
    let path = to_static_long_string("test_entity").unwrap();
    let unknown = to_static_long_string("elsewhere").unwrap();
    let line = Line::new(vec![
        DiagnosticEvent::Hash((path, good)),
        DiagnosticEvent::Hash((path, Sha256Vec::default())),
        DiagnosticEvent::Hash((unknown, good)),
    ]);
    let mut dfm = DiagnosticFaultManager::new(InMemoryStorage::new(), registry.clone());
    run_loop(&mut dfm, &line, 1, None);
    assert_eq!(*line.hash_responses.borrow(), vec![true, false, false]);
}

#[test]
fn changed_conditions_are_announced() {
    let id = to_static_short_string("engine.running").unwrap();
    let active = EnablingConditionStatus::Active;
    let line = Line::new(vec![
        DiagnosticEvent::EnablingConditionStatusChange((id, active)),
        DiagnosticEvent::EnablingConditionStatusChange((id, active)),
    ]);
    let mut dfm = DiagnosticFaultManager::new(InMemoryStorage::new(), make_registry());
    run_loop(&mut dfm, &line, 1, None);
    assert_eq!(line.notifications.borrow().len(), 1);
    assert_eq!(line.notifications.borrow()[0].status, active);
    assert_eq!(dfm.ec_registry.get_status("engine.running"), Some(active));
}

#[test]
fn inactive_conditions_do_not_gate_faults() {
    let id = to_static_short_string("engine.running").unwrap();
    let path = LongString::from_str_truncated("test_entity").unwrap();
    let record = make_record(FaultId::Numeric(42), LifecycleStage::Failed);
    let line = Line::new(vec![
        DiagnosticEvent::EnablingConditionRegister(id),
        DiagnosticEvent::Fault((path, record)),
    ]);
    let mut dfm = DiagnosticFaultManager::new(InMemoryStorage::new(), make_registry());
    run_loop(&mut dfm, &line, 1, None);
    assert!(dfm.storage.get("test_entity", &FaultId::Numeric(42)).unwrap().is_some());
}

#[test]
fn polled_cycles_are_counted() {
    let mut dfm = DiagnosticFaultManager::with_cycle_provider(
        InMemoryStorage::new(),
        make_registry(),
        true,
    );
    let line = Line::new(vec![]);
    let provider = RefCell::new(ManualCycleProvider::new());
    provider.borrow_mut().start_cycle("power", IpcTimestamp::default());
    provider.borrow_mut().stop_cycle("power", IpcTimestamp::default());
    provider.borrow_mut().start_cycle("power", IpcTimestamp::default());
    run_loop(&mut dfm, &line, 2, Some(&provider));
    assert_eq!(dfm.cycle_tracker().get("power"), 2);
}

#[test]
fn requests_are_answered_in_the_loop() {
    let mut dfm =
        DiagnosticFaultManager::with_query_server(InMemoryStorage::new(), make_text_registry());
    let line = Line::new(vec![]);
    line.requests.borrow_mut().push_back(get_all_faults_request("test_entity"));
    line.requests.borrow_mut().push_back(get_all_faults_request("nonexistent"));
    run_loop(&mut dfm, &line, 1, None);
    let answers = line.answers.borrow();
    assert_eq!(answers.len(), 2);
    assert!(matches!(answers[0], DfmQueryResponse::FaultList(_)));
    assert!(matches!(answers[1], DfmQueryResponse::Error(DfmQueryError::BadArgument)));
}

#[test]
fn loop_ends_when_the_transport_dies() {
    let mut dfm = DiagnosticFaultManager::new(InMemoryStorage::new(), make_registry());
    let dead = DfmLoopEvent::Waited(Ok(false));
    assert!(matches!(dfm_loop_step(&mut dfm, &dead, 0, 0), DfmLoopAction::Stop));
    let broken = DfmLoopEvent::Waited(Err(SinkError::TransportDown));
    assert!(matches!(dfm_loop_step(&mut dfm, &broken, 0, 0), DfmLoopAction::Stop));
    let failed = DfmLoopEvent::Received(Err(SinkError::TransportDown));
    assert!(matches!(dfm_loop_step(&mut dfm, &failed, 0, 0), DfmLoopAction::CheckShutdown));
}

#[test]
fn transport_errors_have_messages() {
    assert_eq!(
        TransportInitError::NodeCreation("x".into()).to_string(),
        "node creation failed: x"
    );
    assert_eq!(
        TransportInitError::ServiceCreation("y".into()).to_string(),
        "service creation failed: y"
    );
}

#[test]
fn manager_takes_a_provider_and_a_query_server() {
    let dfm =
        DiagnosticFaultManager::with_transport(InMemoryStorage::new(), make_registry(), true, true);
    assert!(dfm.has_cycle_provider);
    assert!(dfm.query_server.is_some());
    let plain =
        DiagnosticFaultManager::with_transport(InMemoryStorage::new(), make_registry(), false, false);
    assert!(!plain.has_cycle_provider);
    assert!(plain.query_server.is_none());
}
