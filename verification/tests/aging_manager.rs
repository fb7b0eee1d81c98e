use std::cell::RefCell;
use std::sync::{Arc, RwLock};
use std::time::Duration;

use fault_manager::common::catalog::{FaultCatalog, FaultCatalogBuilder, FaultCatalogConfig};
use fault_manager::common::config::{ResetPolicy, ResetTrigger};
use fault_manager::common::debounce::IpcDuration;
use fault_manager::common::fault::{
    ComplianceVec, FaultDescriptor, FaultId, FaultRecord, FaultSeverity, FaultType,
    IpcTimestamp, LifecyclePhase, LifecycleStage,
};
use fault_manager::common::ids::SourceId;
use fault_manager::common::types::{to_static_short_string, LongString, MetadataVec};
use fault_manager::dfm_lib::aging_manager::{AgingManager, AgingState};
use fault_manager::dfm_lib::fault_catalog_registry::FaultCatalogRegistry;
use fault_manager::dfm_lib::fault_record_processor::FaultRecordProcessor;
use fault_manager::dfm_lib::operation_cycle::OperationCycleTracker;
use fault_manager::dfm_lib::sovd_fault_storage::{
    InMemoryStorage, SovdFaultState, SovdFaultStateStorage, StorageError,
};

fn ipc(d: Duration) -> IpcDuration {
    IpcDuration::from_nanos(d.as_nanos())
}

fn build_catalog(config: FaultCatalogConfig) -> FaultCatalog {
    let json = format!("{config:?}");
    FaultCatalogBuilder::new().cfg_struct(config, json).unwrap().build()
}

/// A monotonic clock that the test moves.
struct TestClock {
    nanos: RefCell<u128>,
}

impl TestClock {
    fn advance(&self, d: Duration) {
        *self.nanos.borrow_mut() += d.as_nanos();
    }

    fn now(&self) -> u128 {
        *self.nanos.borrow()
    }
}

/// A storage that a processor and a manager share.
struct SharedStorage {
    inner: RefCell<InMemoryStorage>,
}

#[allow(dead_code)]
impl SharedStorage {
    fn new() -> Self {
        SharedStorage { inner: RefCell::new(InMemoryStorage::new()) }
    }

    fn put(&self, path: &str, id: &FaultId, state: SovdFaultState) -> Result<(), StorageError> {
        self.inner.borrow_mut().put(path, id, state)
    }

    fn get(&self, path: &str, id: &FaultId) -> Result<Option<SovdFaultState>, StorageError> {
        self.inner.borrow().get(path, id)
    }

    fn delete(&self, path: &str, id: &FaultId) -> Result<(), StorageError> {
        self.inner.borrow_mut().delete(path, id)
    }
}

/// A processor with its storage, cycle counts and clock.
struct Processor {
    storage: Arc<SharedStorage>,
    tracker: Arc<RwLock<OperationCycleTracker>>,
    clock: TestClock,
    inner: FaultRecordProcessor,
}

#[allow(dead_code)]
impl Processor {
    fn new(
        storage: Arc<SharedStorage>,
        registry: Arc<FaultCatalogRegistry>,
        tracker: Arc<RwLock<OperationCycleTracker>>,
    ) -> Self {
        Processor {
            storage,
            tracker,
            clock: TestClock { nanos: RefCell::new(1_000_000_000) },
            inner: FaultRecordProcessor::new(registry),
        }
    }

    fn process_record(&mut self, path: &LongString, record: &FaultRecord) {
        let now = self.clock.now();
        let tracker = self.tracker.read().unwrap();
        let mut storage = self.storage.inner.borrow_mut();
        self.inner.process_record(&mut *storage, &tracker, path, record, now, 1_700_000_000);
    }

    fn clear_dtc(&self, path: &str) {
        self.inner.clear_dtc(&mut *self.storage.inner.borrow_mut(), path);
    }

    fn on_new_operation_cycle(&self, path: &str) {
        self.inner.on_new_operation_cycle(&mut *self.storage.inner.borrow_mut(), path);
    }
}

const NOW: u128 = 1_000_000_000_000;

fn make_cycle_tracker() -> Arc<RwLock<OperationCycleTracker>> {
    Arc::new(RwLock::new(OperationCycleTracker::new()))
}

fn make_registry() -> Arc<FaultCatalogRegistry> {
    let config = FaultCatalogConfig {
        id: "test_entity".into(),
        version: 1,
        faults: vec![FaultDescriptor {
            id: FaultId::Numeric(42),
            name: to_static_short_string("Test fault").unwrap(),
            summary: None,
            category: FaultType::Software,
            severity: FaultSeverity::Warn,
            compliance: ComplianceVec::new(),
            reporter_side_debounce: None,
            reporter_side_reset: None,
            manager_side_debounce: None,
            manager_side_reset: None,
        }],
    };
    let catalog = build_catalog(config);
    Arc::new(FaultCatalogRegistry::new(vec![catalog]))
}

fn make_record(fault_id: FaultId, stage: LifecycleStage) -> FaultRecord {
    FaultRecord {
        id: fault_id,
        time: IpcTimestamp::default(),
        source: SourceId {
            entity: to_static_short_string("test").unwrap(),
            ecu: None,
            domain: None,
            sw_component: None,
            instance: None,
        },
        lifecycle_phase: LifecyclePhase::Running,
        lifecycle_stage: stage,
        env_data: MetadataVec::new(),
    }
}

fn make_path(path: &str) -> LongString {
    LongString::from_str_truncated(path).unwrap()
}

fn make_aging_registry(
    entity_id: &str,
    fault_id: FaultId,
    reset_policy: ResetPolicy,
) -> Arc<FaultCatalogRegistry> {
    let config = FaultCatalogConfig {
        id: entity_id.to_string().into(),
        version: 1,
        faults: vec![FaultDescriptor {
            id: fault_id,
            name: to_static_short_string("Aging fault").unwrap(),
            summary: None,
            category: FaultType::Software,
            severity: FaultSeverity::Warn,
            compliance: ComplianceVec::new(),
            reporter_side_debounce: None,
            reporter_side_reset: None,
            manager_side_debounce: None,
            manager_side_reset: Some(reset_policy),
        }],
    };
    let catalog = build_catalog(config);
    Arc::new(FaultCatalogRegistry::new(vec![catalog]))
}

#[test]
fn power_cycles_trigger_not_met() {
    let tracker = make_cycle_tracker();
    let manager = AgingManager::new();

    let policy = ResetPolicy {
        trigger: ResetTrigger::PowerCycles(3),
        min_operating_cycles_before_clear: None,
    };

    let mut state = AgingState::new(NOW);
    state.mark_active(&tracker.read().unwrap(), NOW);

    // Only 2 power cycles - should not reset
    tracker.write().unwrap().increment("power");
    tracker.write().unwrap().increment("power");

    assert!(!manager.should_reset(&policy, &state, &tracker.read().unwrap(), NOW));
}

#[test]
fn power_cycles_trigger_met() {
    let tracker = make_cycle_tracker();
    let manager = AgingManager::new();

    let policy = ResetPolicy {
        trigger: ResetTrigger::PowerCycles(3),
        min_operating_cycles_before_clear: None,
    };

    let mut state = AgingState::new(NOW);
    state.mark_active(&tracker.read().unwrap(), NOW);

    // 3 power cycles - should reset
    for _ in 0..3 {
        tracker.write().unwrap().increment("power");
    }

    assert!(manager.should_reset(&policy, &state, &tracker.read().unwrap(), NOW));
}

#[test]
fn operation_cycles_named_counter() {
    let tracker = make_cycle_tracker();
    let manager = AgingManager::new();

    let policy = ResetPolicy {
        trigger: ResetTrigger::OperationCycles {
            min_cycles: 2,
            cycle_ref: to_static_short_string("ignition").unwrap(),
        },
        min_operating_cycles_before_clear: None,
    };

    let mut state = AgingState::new(NOW);
    state.mark_active(&tracker.read().unwrap(), NOW);

    // Increment different counter - should not affect ignition trigger
    tracker.write().unwrap().increment("power");
    tracker.write().unwrap().increment("power");
    assert!(!manager.should_reset(&policy, &state, &tracker.read().unwrap(), NOW));

    // Increment ignition counter
    tracker.write().unwrap().increment("ignition");
    assert!(!manager.should_reset(&policy, &state, &tracker.read().unwrap(), NOW)); // Only 1

    tracker.write().unwrap().increment("ignition");
    assert!(manager.should_reset(&policy, &state, &tracker.read().unwrap(), NOW)); // Now 2
}

#[test]
fn stable_for_trigger() {
    let tracker = make_cycle_tracker();
    let manager = AgingManager::new();

    let policy = ResetPolicy {
        trigger: ResetTrigger::StableFor(ipc(Duration::from_millis(10))),
        min_operating_cycles_before_clear: None,
    };

    let mut state = AgingState::new(NOW);
    // State was just marked active - not enough time passed
    assert!(!manager.should_reset(&policy, &state, &tracker.read().unwrap(), NOW));

    // Backdate the last_active_time
    state.last_active_time = NOW - Duration::from_millis(50).as_nanos();
    assert!(manager.should_reset(&policy, &state, &tracker.read().unwrap(), NOW));
}

#[test]
fn tool_only_never_auto_resets() {
    let tracker = make_cycle_tracker();
    let manager = AgingManager::new();

    let policy = ResetPolicy {
        trigger: ResetTrigger::ToolOnly,
        min_operating_cycles_before_clear: None,
    };

    let mut state = AgingState::new(NOW);
    state.mark_active(&tracker.read().unwrap(), NOW);

    // Even after 100 cycles, should not reset
    for _ in 0..100 {
        tracker.write().unwrap().increment("power");
    }

    assert!(!manager.should_reset(&policy, &state, &tracker.read().unwrap(), NOW));
}

#[test]
fn apply_reset_clears_flags() {
    let tracker = make_cycle_tracker();
    let manager = AgingManager::new();

    let mut aging_state = AgingState::new(NOW);
    let mut sovd_state = SovdFaultState {
        test_failed: true,
        confirmed_dtc: true,
        pending_dtc: true,
        warning_indicator_requested: true,
        ..Default::default()
    };

    manager.apply_reset(&mut aging_state, &mut sovd_state);

    assert!(aging_state.is_healed);
    assert_eq!(aging_state.aging_counter, 1);
    assert!(!sovd_state.test_failed);
    assert!(!sovd_state.confirmed_dtc);
    assert!(!sovd_state.pending_dtc);
    assert!(!sovd_state.warning_indicator_requested);
    assert_eq!(sovd_state.aging_counter, 1);
    assert_eq!(sovd_state.healing_counter, 1);
}

#[test]
fn apply_reset_n_cycles_increments_aging_counter() {
    let tracker = make_cycle_tracker();
    let manager = AgingManager::new();

    let mut aging_state = AgingState::new(NOW);
    let mut sovd_state = SovdFaultState {
        test_failed: true,
        confirmed_dtc: true,
        ..Default::default()
    };

    for expected in 1..=5u32 {
        aging_state.is_healed = false;
        sovd_state.test_failed = true;
        sovd_state.confirmed_dtc = true;
        manager.apply_reset(&mut aging_state, &mut sovd_state);
        assert_eq!(
            sovd_state.aging_counter, expected,
            "after {expected} resets"
        );
        assert_eq!(
            sovd_state.healing_counter, expected,
            "healing_counter after {expected} resets"
        );
    }
}

#[test]
fn already_healed_not_rechecked() {
    let tracker = make_cycle_tracker();
    let manager = AgingManager::new();

    let policy = ResetPolicy {
        trigger: ResetTrigger::PowerCycles(1),
        min_operating_cycles_before_clear: None,
    };

    let mut state = AgingState::new(NOW);
    state.mark_active(&tracker.read().unwrap(), NOW);
    state.mark_healed(); // Already healed

    tracker.write().unwrap().increment("power");

    // Already healed - should not re-trigger
    assert!(!manager.should_reset(&policy, &state, &tracker.read().unwrap(), NOW));
}

#[test]
fn aging_power_cycles_clears_confirmed_dtc() {
    let fault_id = FaultId::Numeric(500);
    let policy = ResetPolicy {
        trigger: ResetTrigger::PowerCycles(3),
        min_operating_cycles_before_clear: None,
    };
    let registry = make_aging_registry("test_entity", fault_id.clone(), policy);
    let storage = Arc::new(SharedStorage::new());
    let tracker = make_cycle_tracker();
    let mut processor =
        Processor::new(Arc::clone(&storage), registry, Arc::clone(&tracker));
    let path = make_path("test_entity");

    // Step 1: Fault occurs
    let failed = make_record(fault_id.clone(), LifecycleStage::Failed);
    processor.process_record(&path, &failed);

    let state = storage.get("test_entity", &fault_id).unwrap().unwrap();
    assert!(state.confirmed_dtc, "Failed should set confirmed_dtc");
    assert!(state.test_failed, "Failed should set test_failed");

    // Step 2: Fault passes - confirmed_dtc should stay latched (aging policy)
    let passed = make_record(fault_id.clone(), LifecycleStage::Passed);
    processor.process_record(&path, &passed);

    let state = storage.get("test_entity", &fault_id).unwrap().unwrap();
    assert!(
        state.confirmed_dtc,
        "confirmed_dtc should stay latched after Passed (aging policy)"
    );
    assert!(!state.test_failed, "test_failed should clear on Passed");

    // Step 3: Advance power cycles but not enough (only 2 of 3 needed)
    tracker.write().unwrap().increment("power");
    tracker.write().unwrap().increment("power");

    // Send another Passed event to trigger re-evaluation
    processor.process_record(&path, &passed);
    let state = storage.get("test_entity", &fault_id).unwrap().unwrap();
    assert!(
        state.confirmed_dtc,
        "confirmed_dtc should still be latched (only 2/3 power cycles)"
    );

    // Step 4: Third power cycle -> aging conditions met
    tracker.write().unwrap().increment("power");
    processor.process_record(&path, &passed);

    let state = storage.get("test_entity", &fault_id).unwrap().unwrap();
    assert!(
        !state.confirmed_dtc,
        "confirmed_dtc should clear after 3 power cycles (aging reset)"
    );
    assert!(
        !state.test_failed,
        "test_failed should remain cleared after aging reset"
    );
    assert_eq!(
        state.healing_counter, 1,
        "healing_counter should increment on aging reset"
    );
}

#[test]
fn aging_operation_cycles_named_counter_resets() {
    let fault_id = FaultId::Numeric(501);
    let policy = ResetPolicy {
        trigger: ResetTrigger::OperationCycles {
            min_cycles: 2,
            cycle_ref: to_static_short_string("ignition").unwrap(),
        },
        min_operating_cycles_before_clear: None,
    };
    let registry = make_aging_registry("test_entity", fault_id.clone(), policy);
    let storage = Arc::new(SharedStorage::new());
    let tracker = make_cycle_tracker();
    let mut processor =
        Processor::new(Arc::clone(&storage), registry, Arc::clone(&tracker));
    let path = make_path("test_entity");

    // Fault occurs and then passes
    let failed = make_record(fault_id.clone(), LifecycleStage::Failed);
    let passed = make_record(fault_id.clone(), LifecycleStage::Passed);
    processor.process_record(&path, &failed);
    processor.process_record(&path, &passed);

    let state = storage.get("test_entity", &fault_id).unwrap().unwrap();
    assert!(state.confirmed_dtc, "confirmed_dtc latched");

    // Increment a different counter - should not affect ignition trigger
    tracker.write().unwrap().increment("power");
    tracker.write().unwrap().increment("power");
    processor.process_record(&path, &passed);
    let state = storage.get("test_entity", &fault_id).unwrap().unwrap();
    assert!(
        state.confirmed_dtc,
        "power cycles should not trigger ignition-based aging"
    );

    // Increment ignition counter: 1 of 2
    tracker.write().unwrap().increment("ignition");
    processor.process_record(&path, &passed);
    let state = storage.get("test_entity", &fault_id).unwrap().unwrap();
    assert!(state.confirmed_dtc, "Only 1/2 ignition cycles - not enough");

    // Increment ignition counter: 2 of 2 - should trigger
    tracker.write().unwrap().increment("ignition");
    processor.process_record(&path, &passed);
    let state = storage.get("test_entity", &fault_id).unwrap().unwrap();
    assert!(
        !state.confirmed_dtc,
        "2/2 ignition cycles should trigger aging reset"
    );
    assert_eq!(state.healing_counter, 1);
}

#[test]
fn aging_stable_for_duration_resets() {
    let fault_id = FaultId::Numeric(502);
    let policy = ResetPolicy {
        trigger: ResetTrigger::StableFor(ipc(Duration::from_millis(10))),
        min_operating_cycles_before_clear: None,
    };
    let registry = make_aging_registry("test_entity", fault_id.clone(), policy);
    let storage = Arc::new(SharedStorage::new());
    let tracker = make_cycle_tracker();
    let mut processor = Processor::new(Arc::clone(&storage), registry, tracker);
    let path = make_path("test_entity");

    // Fault occurs and passes
    let failed = make_record(fault_id.clone(), LifecycleStage::Failed);
    let passed = make_record(fault_id.clone(), LifecycleStage::Passed);
    processor.process_record(&path, &failed);
    processor.process_record(&path, &passed);

    let state = storage.get("test_entity", &fault_id).unwrap().unwrap();
    assert!(
        state.confirmed_dtc,
        "confirmed_dtc should be latched immediately after Passed"
    );

    // Wait for the stability duration to elapse
    processor.clock.advance(Duration::from_millis(30));

    // Re-process a Passed event - aging evaluation should now trigger
    processor.process_record(&path, &passed);
    let state = storage.get("test_entity", &fault_id).unwrap().unwrap();
    assert!(
        !state.confirmed_dtc,
        "confirmed_dtc should clear after stability period elapsed"
    );
    assert_eq!(state.healing_counter, 1);
}

#[test]
fn aging_tool_only_never_auto_resets() {
    let fault_id = FaultId::Numeric(503);
    let policy = ResetPolicy {
        trigger: ResetTrigger::ToolOnly,
        min_operating_cycles_before_clear: None,
    };
    let registry = make_aging_registry("test_entity", fault_id.clone(), policy);
    let storage = Arc::new(SharedStorage::new());
    let tracker = make_cycle_tracker();
    let mut processor =
        Processor::new(Arc::clone(&storage), registry, Arc::clone(&tracker));
    let path = make_path("test_entity");

    let failed = make_record(fault_id.clone(), LifecycleStage::Failed);
    let passed = make_record(fault_id.clone(), LifecycleStage::Passed);
    processor.process_record(&path, &failed);
    processor.process_record(&path, &passed);

    // Even after many cycles, should not auto-reset
    for _ in 0..100 {
        tracker.write().unwrap().increment("power");
    }
    processor.process_record(&path, &passed);

    let state = storage.get("test_entity", &fault_id).unwrap().unwrap();
    assert!(
        state.confirmed_dtc,
        "ToolOnly should never auto-reset - confirmed_dtc stays latched"
    );
    assert_eq!(state.healing_counter, 0);
}

#[test]
fn no_aging_policy_clears_immediately() {
    let storage = Arc::new(SharedStorage::new());
    let registry = make_registry(); // No aging configured
    let tracker = make_cycle_tracker();
    let mut processor = Processor::new(Arc::clone(&storage), registry, tracker);
    let path = make_path("test_entity");

    let failed = make_record(FaultId::Numeric(42), LifecycleStage::Failed);
    let passed = make_record(FaultId::Numeric(42), LifecycleStage::Passed);
    processor.process_record(&path, &failed);

    let state = storage
        .get("test_entity", &FaultId::Numeric(42))
        .unwrap()
        .unwrap();
    assert!(state.confirmed_dtc);

    processor.process_record(&path, &passed);
    let state = storage
        .get("test_entity", &FaultId::Numeric(42))
        .unwrap()
        .unwrap();
    assert!(
        !state.confirmed_dtc,
        "Without aging, confirmed_dtc should clear immediately on Passed"
    );
}

#[test]
fn flapping_resets_aging_progress() {
    let fault_id = FaultId::Numeric(504);
    let policy = ResetPolicy {
        trigger: ResetTrigger::PowerCycles(5),
        min_operating_cycles_before_clear: None,
    };
    let registry = make_aging_registry("test_entity", fault_id.clone(), policy);
    let storage = Arc::new(SharedStorage::new());
    let tracker = make_cycle_tracker();
    let mut processor =
        Processor::new(Arc::clone(&storage), registry, Arc::clone(&tracker));
    let path = make_path("test_entity");

    let failed = make_record(fault_id.clone(), LifecycleStage::Failed);
    let passed = make_record(fault_id.clone(), LifecycleStage::Passed);

    // First occurrence
    processor.process_record(&path, &failed);
    processor.process_record(&path, &passed);

    // Advance 3 of 5 power cycles
    for _ in 0..3 {
        tracker.write().unwrap().increment("power");
    }
    processor.process_record(&path, &passed);
    let state = storage.get("test_entity", &fault_id).unwrap().unwrap();
    assert!(
        state.confirmed_dtc,
        "Only 3/5 cycles - should not have aged out yet"
    );

    // Fault re-occurs! Aging resets
    processor.process_record(&path, &failed);

    let state = storage.get("test_entity", &fault_id).unwrap().unwrap();
    assert!(
        state.confirmed_dtc,
        "Re-failure keeps confirmed_dtc latched"
    );

    // Now pass again - aging counter should restart from THIS failure
    processor.process_record(&path, &passed);

    // Previous 3 power cycles should NOT count toward the new aging window.
    // Need 5 more power cycles from the new failure point.
    for _ in 0..4 {
        tracker.write().unwrap().increment("power");
    }
    processor.process_record(&path, &passed);
    let state = storage.get("test_entity", &fault_id).unwrap().unwrap();
    assert!(
        state.confirmed_dtc,
        "Only 4/5 cycles since re-failure - should not have aged out"
    );

    tracker.write().unwrap().increment("power");
    processor.process_record(&path, &passed);
    let state = storage.get("test_entity", &fault_id).unwrap().unwrap();
    assert!(
        !state.confirmed_dtc,
        "5/5 cycles since re-failure - aging should complete now"
    );
    assert_eq!(state.healing_counter, 1);
}

#[test]
fn aging_reset_preserves_status_consistency() {
    let fault_id = FaultId::Numeric(505);
    let policy = ResetPolicy {
        trigger: ResetTrigger::PowerCycles(1),
        min_operating_cycles_before_clear: None,
    };
    let registry = make_aging_registry("test_entity", fault_id.clone(), policy);
    let storage = Arc::new(SharedStorage::new());
    let tracker = make_cycle_tracker();
    let mut processor =
        Processor::new(Arc::clone(&storage), registry, Arc::clone(&tracker));
    let path = make_path("test_entity");

    let failed = make_record(fault_id.clone(), LifecycleStage::Failed);
    let passed = make_record(fault_id.clone(), LifecycleStage::Passed);

    processor.process_record(&path, &failed);
    processor.process_record(&path, &passed);

    // One power cycle - reset triggers
    tracker.write().unwrap().increment("power");
    processor.process_record(&path, &passed);

    let state = storage.get("test_entity", &fault_id).unwrap().unwrap();
    assert!(!state.confirmed_dtc, "confirmed_dtc cleared");
    assert!(!state.pending_dtc, "pending_dtc cleared");
    assert!(!state.test_failed, "test_failed cleared");
    assert!(!state.warning_indicator_requested, "WIR cleared");
    assert_eq!(state.healing_counter, 1, "healing counter incremented");
}

#[test]
fn multiple_aging_resets_increment_healing_counter() {
    let fault_id = FaultId::Numeric(506);
    let policy = ResetPolicy {
        trigger: ResetTrigger::PowerCycles(1),
        min_operating_cycles_before_clear: None,
    };
    let registry = make_aging_registry("test_entity", fault_id.clone(), policy);
    let storage = Arc::new(SharedStorage::new());
    let tracker = make_cycle_tracker();
    let mut processor =
        Processor::new(Arc::clone(&storage), registry, Arc::clone(&tracker));
    let path = make_path("test_entity");

    let failed = make_record(fault_id.clone(), LifecycleStage::Failed);
    let passed = make_record(fault_id.clone(), LifecycleStage::Passed);

    // Cycle 1: fail -> pass -> age
    processor.process_record(&path, &failed);
    processor.process_record(&path, &passed);
    tracker.write().unwrap().increment("power");
    processor.process_record(&path, &passed);
    let state = storage.get("test_entity", &fault_id).unwrap().unwrap();
    assert_eq!(state.healing_counter, 1);

    // Cycle 2: re-fail -> pass -> age
    processor.process_record(&path, &failed);
    processor.process_record(&path, &passed);
    tracker.write().unwrap().increment("power");
    processor.process_record(&path, &passed);
    let state = storage.get("test_entity", &fault_id).unwrap().unwrap();
    assert_eq!(state.healing_counter, 2);

    // Cycle 3: re-fail -> pass -> age
    processor.process_record(&path, &failed);
    processor.process_record(&path, &passed);
    tracker.write().unwrap().increment("power");
    processor.process_record(&path, &passed);
    let state = storage.get("test_entity", &fault_id).unwrap().unwrap();
    assert_eq!(state.healing_counter, 3);
}
