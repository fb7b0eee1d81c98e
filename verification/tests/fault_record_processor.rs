use std::cell::RefCell;
use std::sync::{Arc, RwLock};
use std::time::Duration;

use fault_manager::common::catalog::{FaultCatalog, FaultCatalogBuilder, FaultCatalogConfig};
use fault_manager::common::debounce::{DebounceMode, IpcDuration};
use fault_manager::common::fault::{
    ComplianceTag, ComplianceVec, FaultDescriptor, FaultId, FaultRecord, FaultSeverity, FaultType,
    IpcTimestamp, LifecyclePhase, LifecycleStage,
};
use fault_manager::common::ids::SourceId;
use fault_manager::common::types::{to_static_short_string, LongString, MetadataVec};
use fault_manager::dfm_lib::fault_catalog_registry::FaultCatalogRegistry;
use fault_manager::dfm_lib::fault_record_processor::FaultRecordProcessor;
use fault_manager::dfm_lib::operation_cycle::OperationCycleTracker;
use fault_manager::dfm_lib::sovd_fault_storage::{
    InMemoryStorage, SovdFaultState, SovdFaultStateStorage, StorageError,
};

fn ipc(d: Duration) -> IpcDuration {
    IpcDuration::from_nanos(d.as_nanos())
}

fn build_catalog(config: FaultCatalogConfig) -> FaultCatalog {
    let json = format!("{config:?}");
    FaultCatalogBuilder::new().cfg_struct(config, json).unwrap().build()
}

/// A monotonic clock that the test moves.
struct TestClock {
    nanos: RefCell<u128>,
}

impl TestClock {
    fn advance(&self, d: Duration) {
        *self.nanos.borrow_mut() += d.as_nanos();
    }

    fn now(&self) -> u128 {
        *self.nanos.borrow()
    }
}

/// A storage that a processor and a manager share.
struct SharedStorage {
    inner: RefCell<InMemoryStorage>,
}

#[allow(dead_code)]
impl SharedStorage {
    fn new() -> Self {
        SharedStorage { inner: RefCell::new(InMemoryStorage::new()) }
    }

    fn put(&self, path: &str, id: &FaultId, state: SovdFaultState) -> Result<(), StorageError> {
        self.inner.borrow_mut().put(path, id, state)
    }

    fn get(&self, path: &str, id: &FaultId) -> Result<Option<SovdFaultState>, StorageError> {
        self.inner.borrow().get(path, id)
    }

    fn delete(&self, path: &str, id: &FaultId) -> Result<(), StorageError> {
        self.inner.borrow_mut().delete(path, id)
    }
}

/// A processor with its storage, cycle counts and clock.
struct Processor {
    storage: Arc<SharedStorage>,
    tracker: Arc<RwLock<OperationCycleTracker>>,
    clock: TestClock,
    inner: FaultRecordProcessor,
}

#[allow(dead_code)]
impl Processor {
    fn new(
        storage: Arc<SharedStorage>,
        registry: Arc<FaultCatalogRegistry>,
        tracker: Arc<RwLock<OperationCycleTracker>>,
    ) -> Self {
        Processor {
            storage,
            tracker,
            clock: TestClock { nanos: RefCell::new(1_000_000_000) },
            inner: FaultRecordProcessor::new(registry),
        }
    }

    fn process_record(&mut self, path: &LongString, record: &FaultRecord) {
        let now = self.clock.now();
        let tracker = self.tracker.read().unwrap();
        let mut storage = self.storage.inner.borrow_mut();
        self.inner.process_record(&mut *storage, &tracker, path, record, now, 1_700_000_000);
    }

    fn clear_dtc(&self, path: &str) {
        self.inner.clear_dtc(&mut *self.storage.inner.borrow_mut(), path);
    }

    fn on_new_operation_cycle(&self, path: &str) {
        self.inner.on_new_operation_cycle(&mut *self.storage.inner.borrow_mut(), path);
    }
}

fn make_cycle_tracker() -> Arc<RwLock<OperationCycleTracker>> {
    Arc::new(RwLock::new(OperationCycleTracker::new()))
}

fn make_processor(storage: Arc<SharedStorage>, registry: Arc<FaultCatalogRegistry>) -> Processor {
    Processor::new(storage, registry, make_cycle_tracker())
}

fn make_registry() -> Arc<FaultCatalogRegistry> {
    let config = FaultCatalogConfig {
        id: "test_entity".into(),
        version: 1,
        faults: vec![FaultDescriptor {
            id: FaultId::Numeric(42),
            name: to_static_short_string("Test fault").unwrap(),
            summary: None,
            category: FaultType::Software,
            severity: FaultSeverity::Warn,
            compliance: ComplianceVec::new(),
            reporter_side_debounce: None,
            reporter_side_reset: None,
            manager_side_debounce: None,
            manager_side_reset: None,
        }],
    };
    let catalog = build_catalog(config);
    Arc::new(FaultCatalogRegistry::new(vec![catalog]))
}

fn make_record(fault_id: FaultId, stage: LifecycleStage) -> FaultRecord {
    FaultRecord {
        id: fault_id,
        time: IpcTimestamp::default(),
        source: SourceId {
            entity: to_static_short_string("test").unwrap(),
            ecu: None,
            domain: None,
            sw_component: None,
            instance: None,
        },
        lifecycle_phase: LifecyclePhase::Running,
        lifecycle_stage: stage,
        env_data: MetadataVec::new(),
    }
}

fn make_path(path: &str) -> LongString {
    LongString::from_str_truncated(path).unwrap()
}

fn make_debounce_registry(
    entity_id: &str,
    fault_id: FaultId,
    debounce: DebounceMode,
) -> Arc<FaultCatalogRegistry> {
    let config = FaultCatalogConfig {
        id: entity_id.to_string().into(),
        version: 1,
        faults: vec![FaultDescriptor {
            id: fault_id,
            name: to_static_short_string("Debounced fault").unwrap(),
            summary: None,
            category: FaultType::Software,
            severity: FaultSeverity::Warn,
            compliance: ComplianceVec::new(),
            reporter_side_debounce: None,
            reporter_side_reset: None,
            manager_side_debounce: Some(debounce),
            manager_side_reset: None,
        }],
    };
    let catalog = build_catalog(config);
    Arc::new(FaultCatalogRegistry::new(vec![catalog]))
}

fn make_compliance_registry(
    entity_id: &str,
    fault_id: FaultId,
    compliance: ComplianceVec,
) -> Arc<FaultCatalogRegistry> {
    let config = FaultCatalogConfig {
        id: entity_id.to_string().into(),
        version: 1,
        faults: vec![FaultDescriptor {
            id: fault_id,
            name: to_static_short_string("Compliance fault").unwrap(),
            summary: None,
            category: FaultType::Software,
            severity: FaultSeverity::Warn,
            compliance,
            reporter_side_debounce: None,
            reporter_side_reset: None,
            manager_side_debounce: None,
            manager_side_reset: None,
        }],
    };
    let catalog = build_catalog(config);
    Arc::new(FaultCatalogRegistry::new(vec![catalog]))
}

fn make_two_source_debounce_registry(
    fault_id: FaultId,
    debounce: DebounceMode,
) -> Arc<FaultCatalogRegistry> {
    let config1 = FaultCatalogConfig {
        id: "app1".into(),
        version: 1,
        faults: vec![FaultDescriptor {
            id: fault_id.clone(),
            name: to_static_short_string("Fault from app1").unwrap(),
            summary: None,
            category: FaultType::Software,
            severity: FaultSeverity::Warn,
            compliance: ComplianceVec::new(),
            reporter_side_debounce: None,
            reporter_side_reset: None,
            manager_side_debounce: Some(debounce),
            manager_side_reset: None,
        }],
    };
    let config2 = FaultCatalogConfig {
        id: "app2".into(),
        version: 1,
        faults: vec![FaultDescriptor {
            id: fault_id,
            name: to_static_short_string("Fault from app2").unwrap(),
            summary: None,
            category: FaultType::Software,
            severity: FaultSeverity::Warn,
            compliance: ComplianceVec::new(),
            reporter_side_debounce: None,
            reporter_side_reset: None,
            manager_side_debounce: Some(debounce),
            manager_side_reset: None,
        }],
    };
    let catalog1 = build_catalog(config1);
    let catalog2 = build_catalog(config2);
    Arc::new(FaultCatalogRegistry::new(vec![catalog1, catalog2]))
}

#[test]
fn processor_handles_failed_stage() {
    let storage = Arc::new(SharedStorage::new());
    let registry = make_registry();
    let mut processor = make_processor(Arc::clone(&storage), registry);

    let record = make_record(FaultId::Numeric(42), LifecycleStage::Failed);
    let path = make_path("test_entity");
    processor.process_record(&path, &record);

    let state = storage.get("test_entity", &FaultId::Numeric(42)).unwrap();
    assert!(state.is_some(), "Failed stage should store state");

    let state = state.unwrap();
    assert!(state.test_failed, "Failed should set test_failed=true");
    assert!(state.confirmed_dtc, "Failed should set confirmed_dtc=true");
}

#[test]
fn processor_handles_passed_stage() {
    let storage = Arc::new(SharedStorage::new());
    let registry = make_registry();
    let mut processor = make_processor(Arc::clone(&storage), registry);

    let record = make_record(FaultId::Numeric(42), LifecycleStage::Passed);
    let path = make_path("test_entity");
    processor.process_record(&path, &record);

    let state = storage.get("test_entity", &FaultId::Numeric(42)).unwrap();
    assert!(state.is_some(), "Passed stage should store state");

    let state = state.unwrap();
    assert!(!state.test_failed, "Passed should set test_failed=false");
    assert!(
        !state.confirmed_dtc,
        "Passed should set confirmed_dtc=false"
    );
}

#[test]
fn processor_handles_failed_to_passed_transition() {
    let storage = Arc::new(SharedStorage::new());
    let registry = make_registry();
    let mut processor = make_processor(Arc::clone(&storage), registry);
    let path = make_path("test_entity");

    // First: Failed
    let record_failed = make_record(FaultId::Numeric(42), LifecycleStage::Failed);
    processor.process_record(&path, &record_failed);

    let state = storage
        .get("test_entity", &FaultId::Numeric(42))
        .unwrap()
        .unwrap();
    assert!(state.test_failed);
    assert!(state.confirmed_dtc);

    // Then: Passed
    let record_passed = make_record(FaultId::Numeric(42), LifecycleStage::Passed);
    processor.process_record(&path, &record_passed);

    let state = storage
        .get("test_entity", &FaultId::Numeric(42))
        .unwrap()
        .unwrap();
    assert!(!state.test_failed);
    assert!(!state.confirmed_dtc);
}

#[test]
fn processor_handles_prefailed_stage() {
    let storage = Arc::new(SharedStorage::new());
    let registry = make_registry();
    let mut processor = make_processor(Arc::clone(&storage), registry);

    let record = make_record(FaultId::Numeric(42), LifecycleStage::PreFailed);
    let path = make_path("test_entity");
    processor.process_record(&path, &record);

    let state = storage.get("test_entity", &FaultId::Numeric(42)).unwrap();
    assert!(state.is_some(), "PreFailed stage should store state");
    let state = state.unwrap();
    assert!(state.test_failed, "PreFailed should set test_failed=true");
    assert!(state.pending_dtc, "PreFailed should set pending_dtc=true");
    assert!(
        !state.confirmed_dtc,
        "PreFailed should NOT set confirmed_dtc"
    );
}

#[test]
fn processor_handles_prepassed_stage() {
    let storage = Arc::new(SharedStorage::new());
    let registry = make_registry();
    let mut processor = make_processor(Arc::clone(&storage), registry);

    let record = make_record(FaultId::Numeric(42), LifecycleStage::PrePassed);
    let path = make_path("test_entity");
    processor.process_record(&path, &record);

    let state = storage.get("test_entity", &FaultId::Numeric(42)).unwrap();
    assert!(state.is_some(), "PrePassed stage should store state");
    let state = state.unwrap();
    assert!(!state.test_failed, "PrePassed should set test_failed=false");
    assert!(!state.pending_dtc, "PrePassed should set pending_dtc=false");
}

#[test]
fn processor_handles_nottested_stage() {
    let storage = Arc::new(SharedStorage::new());
    let registry = make_registry();
    let mut processor = make_processor(Arc::clone(&storage), registry);

    let record = make_record(FaultId::Numeric(42), LifecycleStage::NotTested);
    let path = make_path("test_entity");
    processor.process_record(&path, &record);

    let state = storage.get("test_entity", &FaultId::Numeric(42)).unwrap();
    assert!(state.is_some(), "NotTested stage should store state");
    let state = state.unwrap();
    assert!(
        state.test_not_completed_this_operation_cycle,
        "NotTested should set test_not_completed_this_operation_cycle=true"
    );
}

#[test]
fn dfm_applies_manager_side_debounce() {
    let fault_id = FaultId::Numeric(100);
    let debounce = DebounceMode::CountWithinWindow {
        min_count: 3,
        window: ipc(Duration::from_secs(10)),
    };
    let registry = make_debounce_registry("test_entity", fault_id.clone(), debounce);
    let storage = Arc::new(SharedStorage::new());
    let mut processor = make_processor(Arc::clone(&storage), registry);
    let path = make_path("test_entity");

    // Events 1 and 2: suppressed (count < min_count)
    let record = make_record(fault_id.clone(), LifecycleStage::Failed);
    processor.process_record(&path, &record);
    assert!(
        storage.get("test_entity", &fault_id).unwrap().is_none(),
        "First event should be suppressed by debounce"
    );

    processor.process_record(&path, &record);
    assert!(
        storage.get("test_entity", &fault_id).unwrap().is_none(),
        "Second event should be suppressed by debounce"
    );

    // Event 3: fires (count == min_count)
    processor.process_record(&path, &record);
    let state = storage.get("test_entity", &fault_id).unwrap();
    assert!(
        state.is_some(),
        "Third event should pass debounce and update storage"
    );
    let state = state.unwrap();
    assert!(state.test_failed);
    assert!(state.confirmed_dtc);
}

#[test]
fn dfm_passes_through_without_debounce_config() {
    let storage = Arc::new(SharedStorage::new());
    let registry = make_registry(); // No debounce configured
    let mut processor = make_processor(Arc::clone(&storage), registry);
    let path = make_path("test_entity");

    let record = make_record(FaultId::Numeric(42), LifecycleStage::Failed);
    processor.process_record(&path, &record);

    let state = storage.get("test_entity", &FaultId::Numeric(42)).unwrap();
    assert!(
        state.is_some(),
        "Event should pass through when no debounce configured"
    );
    assert!(state.unwrap().test_failed);
}

#[test]
fn dfm_debounce_resets_on_lifecycle_transition() {
    let fault_id = FaultId::Numeric(200);
    let debounce = DebounceMode::CountWithinWindow {
        min_count: 3,
        window: ipc(Duration::from_secs(60)),
    };
    let registry = make_debounce_registry("test_entity", fault_id.clone(), debounce);
    let storage = Arc::new(SharedStorage::new());
    let mut processor = make_processor(Arc::clone(&storage), registry);
    let path = make_path("test_entity");

    let failed = make_record(fault_id.clone(), LifecycleStage::Failed);
    let passed = make_record(fault_id.clone(), LifecycleStage::Passed);

    // 2 Failed events: suppressed (count 1, 2)
    processor.process_record(&path, &failed);
    processor.process_record(&path, &failed);
    assert!(
        storage.get("test_entity", &fault_id).unwrap().is_none(),
        "First two Failed events should be suppressed"
    );

    // Passed event: this is the 3rd event, reaches min_count -> fires
    processor.process_record(&path, &passed);
    let state = storage.get("test_entity", &fault_id).unwrap();
    assert!(state.is_some(), "Passed event (3rd) should fire");
    assert!(
        !state.unwrap().test_failed,
        "Passed should clear test_failed"
    );

    // Now Failed again: lifecycle transition (Passed->Failed) resets debouncer
    // After reset, counter restarts: event 1 -> suppressed
    processor.process_record(&path, &failed);
    let state = storage.get("test_entity", &fault_id).unwrap().unwrap();
    assert!(
        !state.test_failed,
        "First Failed after reset should be suppressed; Passed state remains"
    );

    // Events 2 and 3 after reset
    processor.process_record(&path, &failed);
    let state = storage.get("test_entity", &fault_id).unwrap().unwrap();
    assert!(
        !state.test_failed,
        "Second Failed after reset should still be suppressed"
    );

    processor.process_record(&path, &failed);
    let state = storage.get("test_entity", &fault_id).unwrap().unwrap();
    assert!(
        state.test_failed,
        "Third Failed after reset should fire (counter reached min_count)"
    );
    assert!(state.confirmed_dtc);
}

#[test]
fn dfm_debounce_is_per_source() {
    let fault_id = FaultId::Numeric(300);
    let debounce = DebounceMode::CountWithinWindow {
        min_count: 2,
        window: ipc(Duration::from_secs(10)),
    };
    let registry = make_two_source_debounce_registry(fault_id.clone(), debounce);
    let storage = Arc::new(SharedStorage::new());
    let mut processor = make_processor(Arc::clone(&storage), registry);
    let path1 = make_path("app1");
    let path2 = make_path("app2");

    let record = make_record(fault_id.clone(), LifecycleStage::Failed);

    // app1: event 1 -> suppressed
    processor.process_record(&path1, &record);
    assert!(
        storage.get("app1", &fault_id).unwrap().is_none(),
        "app1 first event should be suppressed"
    );

    // app2: event 1 -> suppressed
    processor.process_record(&path2, &record);
    assert!(
        storage.get("app2", &fault_id).unwrap().is_none(),
        "app2 first event should be suppressed"
    );

    // app1: event 2 -> fires (count == min_count for app1)
    processor.process_record(&path1, &record);
    assert!(
        storage.get("app1", &fault_id).unwrap().is_some(),
        "app1 second event should fire (reached min_count)"
    );
    // app2 should still be suppressed
    assert!(
        storage.get("app2", &fault_id).unwrap().is_none(),
        "app2 should still be suppressed (only 1 event)"
    );

    // app2: event 2 -> fires independently
    processor.process_record(&path2, &record);
    assert!(
        storage.get("app2", &fault_id).unwrap().is_some(),
        "app2 second event should fire independently"
    );
}

#[test]
fn dfm_applies_edge_with_cooldown_debounce() {
    let fault_id = FaultId::Numeric(400);
    let debounce = DebounceMode::EdgeWithCooldown {
        cooldown: ipc(Duration::from_secs(60)),
    };
    let registry = make_debounce_registry("test_entity", fault_id.clone(), debounce);
    let storage = Arc::new(SharedStorage::new());
    let mut processor = make_processor(Arc::clone(&storage), registry);
    let path = make_path("test_entity");

    let record = make_record(fault_id.clone(), LifecycleStage::Failed);

    // First event: passes (edge trigger)
    processor.process_record(&path, &record);
    assert!(
        storage.get("test_entity", &fault_id).unwrap().is_some(),
        "First event should pass through (edge trigger)"
    );

    // Overwrite storage to detect if second event updates it
    storage.delete("test_entity", &fault_id).unwrap();

    // Second event within cooldown: suppressed
    processor.process_record(&path, &record);
    assert!(
        storage.get("test_entity", &fault_id).unwrap().is_none(),
        "Second event within cooldown should be suppressed"
    );
}

#[test]
fn warning_indicator_set_for_safety_critical() {
    let fault_id = FaultId::Numeric(700);
    let compliance = ComplianceVec::try_from(&[ComplianceTag::SafetyCritical][..]).unwrap();
    let registry = make_compliance_registry("test_entity", fault_id.clone(), compliance);
    let storage = Arc::new(SharedStorage::new());
    let mut processor = make_processor(Arc::clone(&storage), registry);
    let path = make_path("test_entity");

    let record = make_record(fault_id.clone(), LifecycleStage::Failed);
    processor.process_record(&path, &record);

    let state = storage.get("test_entity", &fault_id).unwrap().unwrap();
    assert!(
        state.warning_indicator_requested,
        "SafetyCritical fault should set WIR"
    );
}

#[test]
fn warning_indicator_set_for_emission_relevant() {
    let fault_id = FaultId::Numeric(701);
    let compliance = ComplianceVec::try_from(&[ComplianceTag::EmissionRelevant][..]).unwrap();
    let registry = make_compliance_registry("test_entity", fault_id.clone(), compliance);
    let storage = Arc::new(SharedStorage::new());
    let mut processor = make_processor(Arc::clone(&storage), registry);
    let path = make_path("test_entity");

    let record = make_record(fault_id.clone(), LifecycleStage::Failed);
    processor.process_record(&path, &record);

    let state = storage.get("test_entity", &fault_id).unwrap().unwrap();
    assert!(
        state.warning_indicator_requested,
        "EmissionRelevant fault should set WIR"
    );
}

#[test]
fn warning_indicator_not_set_for_security_only() {
    let fault_id = FaultId::Numeric(702);
    let compliance = ComplianceVec::try_from(&[ComplianceTag::SecurityRelevant][..]).unwrap();
    let registry = make_compliance_registry("test_entity", fault_id.clone(), compliance);
    let storage = Arc::new(SharedStorage::new());
    let mut processor = make_processor(Arc::clone(&storage), registry);
    let path = make_path("test_entity");

    let record = make_record(fault_id.clone(), LifecycleStage::Failed);
    processor.process_record(&path, &record);

    let state = storage.get("test_entity", &fault_id).unwrap().unwrap();
    assert!(
        !state.warning_indicator_requested,
        "SecurityRelevant-only should not set WIR"
    );
}

#[test]
fn warning_indicator_set_on_prefailed() {
    let fault_id = FaultId::Numeric(703);
    let compliance = ComplianceVec::try_from(&[ComplianceTag::SafetyCritical][..]).unwrap();
    let registry = make_compliance_registry("test_entity", fault_id.clone(), compliance);
    let storage = Arc::new(SharedStorage::new());
    let mut processor = make_processor(Arc::clone(&storage), registry);
    let path = make_path("test_entity");

    let record = make_record(fault_id.clone(), LifecycleStage::PreFailed);
    processor.process_record(&path, &record);

    let state = storage.get("test_entity", &fault_id).unwrap().unwrap();
    assert!(
        state.warning_indicator_requested,
        "PreFailed should also set WIR for SafetyCritical"
    );
}

#[test]
fn clear_dtc_resets_since_last_clear_flags() {
    let fault_id = FaultId::Numeric(710);
    let _ = fault_id;
    let registry = make_registry();
    let storage = Arc::new(SharedStorage::new());
    let mut processor = make_processor(Arc::clone(&storage), registry);
    let path = make_path("test_entity");

    // Create some fault state with since_last_clear flags set
    let record = make_record(FaultId::Numeric(42), LifecycleStage::Failed);
    processor.process_record(&path, &record);

    let state = storage
        .get("test_entity", &FaultId::Numeric(42))
        .unwrap()
        .unwrap();
    assert!(state.test_failed_since_last_clear);

    // Clear DTC
    processor.clear_dtc("test_entity");

    let state = storage
        .get("test_entity", &FaultId::Numeric(42))
        .unwrap()
        .unwrap();
    assert!(
        !state.test_failed_since_last_clear,
        "clear_dtc should reset test_failed_since_last_clear"
    );
    assert!(
        !state.test_not_completed_since_last_clear,
        "clear_dtc should reset test_not_completed_since_last_clear"
    );
    // Other flags preserved
    assert!(state.test_failed, "clear_dtc should not affect test_failed");
}

#[test]
fn new_operation_cycle_resets_this_cycle_flags() {
    let registry = make_registry();
    let storage = Arc::new(SharedStorage::new());
    let mut processor = make_processor(Arc::clone(&storage), registry);
    let path = make_path("test_entity");

    // Create fault state with this_operation_cycle flags set
    let record = make_record(FaultId::Numeric(42), LifecycleStage::Failed);
    processor.process_record(&path, &record);

    let state = storage
        .get("test_entity", &FaultId::Numeric(42))
        .unwrap()
        .unwrap();
    assert!(state.test_failed_this_operation_cycle);

    // New operation cycle
    processor.on_new_operation_cycle("test_entity");

    let state = storage
        .get("test_entity", &FaultId::Numeric(42))
        .unwrap()
        .unwrap();
    assert!(
        !state.test_failed_this_operation_cycle,
        "new cycle should reset test_failed_this_operation_cycle"
    );
    assert!(
        !state.test_not_completed_this_operation_cycle,
        "new cycle should reset test_not_completed_this_operation_cycle"
    );
    // Other flags preserved
    assert!(state.test_failed, "new cycle should not affect test_failed");
    assert!(
        state.confirmed_dtc,
        "new cycle should not affect confirmed_dtc"
    );
}

#[test]
fn full_dtc_lifecycle_clear_then_new_cycle() {
    let fault_id = FaultId::Numeric(42);
    let compliance = ComplianceVec::try_from(&[ComplianceTag::SafetyCritical][..]).unwrap();
    let registry = make_compliance_registry("test_entity", fault_id.clone(), compliance);
    let storage = Arc::new(SharedStorage::new());
    let mut processor = make_processor(Arc::clone(&storage), registry);
    let path = make_path("test_entity");

    // Step 1: Failed
    let failed = make_record(fault_id.clone(), LifecycleStage::Failed);
    processor.process_record(&path, &failed);

    let state = storage.get("test_entity", &fault_id).unwrap().unwrap();
    assert!(state.test_failed);
    assert!(state.test_failed_this_operation_cycle);
    assert!(state.test_failed_since_last_clear);
    assert!(state.warning_indicator_requested);

    // Step 2: Clear DTC
    processor.clear_dtc("test_entity");
    let state = storage.get("test_entity", &fault_id).unwrap().unwrap();
    assert!(!state.test_failed_since_last_clear, "cleared");
    assert!(
        state.test_failed_this_operation_cycle,
        "clear doesn't touch this_cycle"
    );

    // Step 3: New operation cycle
    processor.on_new_operation_cycle("test_entity");
    let state = storage.get("test_entity", &fault_id).unwrap().unwrap();
    assert!(
        !state.test_failed_this_operation_cycle,
        "reset by new cycle"
    );
    assert!(!state.test_failed_since_last_clear, "still cleared");

    // Step 4: Failed again
    processor.process_record(&path, &failed);
    let state = storage.get("test_entity", &fault_id).unwrap().unwrap();
    assert!(state.test_failed_this_operation_cycle);
    assert!(state.test_failed_since_last_clear);
    assert_eq!(state.occurrence_counter, 2);
}
