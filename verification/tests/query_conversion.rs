use std::cell::RefCell;
use std::sync::{Arc, RwLock};
use std::time::Duration;

use fault_manager::common::catalog::{FaultCatalog, FaultCatalogBuilder, FaultCatalogConfig};
use fault_manager::common::fault::{
    ComplianceVec, FaultDescriptor, FaultId, FaultRecord, FaultSeverity, FaultType, IpcTimestamp,
    LifecyclePhase, LifecycleStage,
};
use fault_manager::common::ids::SourceId;
use fault_manager::common::types::{to_static_short_string, LongString, MetadataVec};
use fault_manager::dfm_lib::fault_catalog_registry::FaultCatalogRegistry;
use fault_manager::dfm_lib::fault_record_processor::FaultRecordProcessor;
use fault_manager::dfm_lib::operation_cycle::OperationCycleTracker;
use fault_manager::dfm_lib::query_conversion::{
    env_data_to_ipc, ipc_env_data_to_sovd, ipc_fault_to_sovd, sovd_fault_to_ipc,
};
use fault_manager::dfm_lib::sovd_fault_manager::{Error, SovdFault, SovdFaultManager};
use fault_manager::dfm_lib::sovd_fault_storage::{
    InMemoryStorage, SovdEnvData, SovdFaultState, SovdFaultStateStorage, StorageError,
};
use fault_manager::dfm_lib::timestamp::{format_unix_timestamp, parse_iso_timestamp};

fn build_catalog(config: FaultCatalogConfig) -> FaultCatalog {
    let json = format!("{config:?}");
    FaultCatalogBuilder::new().cfg_struct(config, json).unwrap().build()
}

/// A monotonic clock that the test moves.
struct TestClock {
    nanos: RefCell<u128>,
}

impl TestClock {
    fn advance(&self, d: Duration) {
        *self.nanos.borrow_mut() += d.as_nanos();
    }

    fn now(&self) -> u128 {
        *self.nanos.borrow()
    }
}

/// A storage that a processor and a manager share.
struct SharedStorage {
    inner: RefCell<InMemoryStorage>,
}

#[allow(dead_code)]
impl SharedStorage {
    fn new() -> Self {
        SharedStorage { inner: RefCell::new(InMemoryStorage::new()) }
    }

    fn put(&self, path: &str, id: &FaultId, state: SovdFaultState) -> Result<(), StorageError> {
        self.inner.borrow_mut().put(path, id, state)
    }

    fn get(&self, path: &str, id: &FaultId) -> Result<Option<SovdFaultState>, StorageError> {
        self.inner.borrow().get(path, id)
    }

    fn delete(&self, path: &str, id: &FaultId) -> Result<(), StorageError> {
        self.inner.borrow_mut().delete(path, id)
    }
}

/// A processor with its storage, cycle counts and clock.
struct Processor {
    storage: Arc<SharedStorage>,
    tracker: Arc<RwLock<OperationCycleTracker>>,
    clock: TestClock,
    inner: FaultRecordProcessor,
}

#[allow(dead_code)]
impl Processor {
    fn new(
        storage: Arc<SharedStorage>,
        registry: Arc<FaultCatalogRegistry>,
        tracker: Arc<RwLock<OperationCycleTracker>>,
    ) -> Self {
        Processor {
            storage,
            tracker,
            clock: TestClock { nanos: RefCell::new(1_000_000_000) },
            inner: FaultRecordProcessor::new(registry),
        }
    }

    fn process_record(&mut self, path: &LongString, record: &FaultRecord) {
        let now = self.clock.now();
        let tracker = self.tracker.read().unwrap();
        let mut storage = self.storage.inner.borrow_mut();
        self.inner.process_record(&mut *storage, &tracker, path, record, now, 1_700_000_000);
    }

    fn clear_dtc(&self, path: &str) {
        self.inner.clear_dtc(&mut *self.storage.inner.borrow_mut(), path);
    }

    fn on_new_operation_cycle(&self, path: &str) {
        self.inner.on_new_operation_cycle(&mut *self.storage.inner.borrow_mut(), path);
    }
}

/// A manager of queries with its storage.
struct Manager {
    storage: Arc<SharedStorage>,
    inner: SovdFaultManager,
}

#[allow(dead_code)]
impl Manager {
    fn new(storage: Arc<SharedStorage>, registry: Arc<FaultCatalogRegistry>) -> Self {
        Manager { storage, inner: SovdFaultManager::new(registry) }
    }

    fn get_all_faults(&self, path: &str) -> Result<Vec<SovdFault>, Error> {
        self.inner.get_all_faults(&*self.storage.inner.borrow(), path)
    }

    fn get_fault(&self, path: &str, code: &str) -> Result<(SovdFault, SovdEnvData), Error> {
        self.inner.get_fault(&*self.storage.inner.borrow(), path, code)
    }

    fn delete_fault(&self, path: &str, code: &str) -> Result<(), Error> {
        self.inner.delete_fault(&mut *self.storage.inner.borrow_mut(), path, code)
    }
}


fn make_cycle_tracker() -> Arc<RwLock<OperationCycleTracker>> {
    Arc::new(RwLock::new(OperationCycleTracker::new()))
}

fn make_text_registry() -> Arc<FaultCatalogRegistry> {
    let config = FaultCatalogConfig {
        id: "test_entity".into(),
        version: 1,
        faults: vec![
            FaultDescriptor {
                id: FaultId::Text(to_static_short_string("fault_a").unwrap()),
                name: to_static_short_string("Fault A").unwrap(),
                summary: None,
                category: FaultType::Software,
                severity: FaultSeverity::Warn,
                compliance: ComplianceVec::new(),
                reporter_side_debounce: None,
                reporter_side_reset: None,
                manager_side_debounce: None,
                manager_side_reset: None,
            },
            FaultDescriptor {
                id: FaultId::Text(to_static_short_string("fault_b").unwrap()),
                name: to_static_short_string("Fault B").unwrap(),
                summary: None,
                category: FaultType::Hardware,
                severity: FaultSeverity::Error,
                compliance: ComplianceVec::new(),
                reporter_side_debounce: None,
                reporter_side_reset: None,
                manager_side_debounce: None,
                manager_side_reset: None,
            },
        ],
    };
    let catalog = build_catalog(config);
    Arc::new(FaultCatalogRegistry::new(vec![catalog]))
}

fn make_record(fault_id: FaultId, stage: LifecycleStage) -> FaultRecord {
    FaultRecord {
        id: fault_id,
        time: IpcTimestamp::default(),
        source: SourceId {
            entity: to_static_short_string("test").unwrap(),
            ecu: None,
            domain: None,
            sw_component: None,
            instance: None,
        },
        lifecycle_phase: LifecyclePhase::Running,
        lifecycle_stage: stage,
        env_data: MetadataVec::new(),
    }
}

fn make_path(path: &str) -> LongString {
    LongString::from_str_truncated(path).unwrap()
}

fn make_real_fault() -> SovdFault {
    let storage = Arc::new(SharedStorage::new());
    let registry = make_text_registry();
    let mut processor = Processor::new(
        Arc::clone(&storage),
        Arc::clone(&registry),
        make_cycle_tracker(),
    );
    let path = make_path("test_entity");
    let record = make_record(
        FaultId::Text(to_static_short_string("fault_a").unwrap()),
        LifecycleStage::Failed,
    );
    processor.process_record(&path, &record);

    let manager = Manager::new(storage, registry);
    let faults = manager.get_all_faults("test_entity").unwrap();
    faults.into_iter().find(|f| f.code == "fault_a").unwrap()
}

#[test]
fn roundtrip_preserves_core_fields() {
    let original = make_real_fault();
    let ipc = sovd_fault_to_ipc(&original);
    let restored = ipc_fault_to_sovd(&ipc);

    assert_eq!(restored.code, original.code);
    assert_eq!(restored.display_code, original.display_code);
    assert_eq!(restored.scope, original.scope);
    assert_eq!(restored.fault_name, original.fault_name);
    assert_eq!(restored.severity, original.severity);
}

#[test]
fn roundtrip_preserves_status_flags() {
    let original = make_real_fault();
    let ipc = sovd_fault_to_ipc(&original);
    let restored = ipc_fault_to_sovd(&ipc);

    let orig_status = original.typed_status.as_ref().unwrap();
    let rest_status = restored.typed_status.as_ref().unwrap();

    assert_eq!(rest_status.test_failed, orig_status.test_failed);
    assert_eq!(rest_status.confirmed_dtc, orig_status.confirmed_dtc);
    assert_eq!(rest_status.pending_dtc, orig_status.pending_dtc);
    assert_eq!(
        rest_status.warning_indicator_requested,
        orig_status.warning_indicator_requested
    );
}

#[test]
fn roundtrip_preserves_counters() {
    let original = make_real_fault();
    let ipc = sovd_fault_to_ipc(&original);
    let restored = ipc_fault_to_sovd(&ipc);

    assert_eq!(restored.occurrence_counter, original.occurrence_counter);
    assert_eq!(restored.aging_counter, original.aging_counter);
    assert_eq!(restored.healing_counter, original.healing_counter);
}

#[test]
fn roundtrip_preserves_symptom() {
    let original = make_real_fault();
    let ipc = sovd_fault_to_ipc(&original);
    let restored = ipc_fault_to_sovd(&ipc);

    // fault_a in make_text_registry has no summary -> symptom is None
    assert_eq!(restored.symptom, original.symptom);
    assert_eq!(
        restored.symptom_translation_id,
        original.symptom_translation_id
    );
}

#[test]
fn known_lossy_fields_are_expected() {
    let original = make_real_fault();
    let ipc = sovd_fault_to_ipc(&original);
    let restored = ipc_fault_to_sovd(&ipc);

    // schema is always None after IPC roundtrip
    assert!(restored.schema.is_none());
    // status HashMap is reconstructed (may differ in iteration order)
    assert!(restored.status.len() > 0);
}

#[test]
fn truncation_does_not_error() {
    // Create a fault with a very long name
    let fault = SovdFault {
        code: "x".repeat(200),
        fault_name: "y".repeat(200),
        symptom: Some("z".repeat(300)),
        ..SovdFault::default()
    };

    let ipc = sovd_fault_to_ipc(&fault);
    // Should truncate, not panic or error
    assert!(ipc.code.len() <= 64);
    assert!(ipc.fault_name.len() <= 64);
    assert!(ipc.symptom.len() <= 128);
    assert!(ipc.has_symptom);
}

#[test]
fn env_data_roundtrip() {
    let mut env = SovdEnvData::new();
    env.insert("temp".into(), "42".into());
    env.insert("pressure".into(), "1013".into());

    let ipc = env_data_to_ipc(&env);
    let restored = ipc_env_data_to_sovd(&ipc);

    assert_eq!(restored.get_str("temp"), Some(&"42".into()));
    assert_eq!(restored.get_str("pressure"), Some(&"1013".into()));
}

#[test]
fn env_data_overflow_truncates() {
        let mut env = SovdEnvData::new();
    for i in 0..20 {
        env.insert(format!("key_{i}"), format!("val_{i}"));
    }
    let ipc = env_data_to_ipc(&env);
    assert_eq!(ipc.len(), 8); // capacity limit
}

#[test]
fn timestamp_roundtrip() {
    let ts = 1705312200u64; // 2024-01-15T09:50:00Z
    let iso = format_unix_timestamp(ts);
    let parsed = parse_iso_timestamp(Some(&iso));
    assert_eq!(parsed, ts);
}

#[test]
fn timestamp_none_returns_zero() {
    assert_eq!(parse_iso_timestamp(None), 0);
}

#[test]
fn timestamp_invalid_returns_zero() {
    assert_eq!(parse_iso_timestamp(Some("not-a-date")), 0);
    assert_eq!(parse_iso_timestamp(Some("")), 0);
}

#[test]
fn timestamp_epoch_zero() {
    let iso = format_unix_timestamp(0);
    assert_eq!(iso, "1970-01-01T00:00:00Z");
    let parsed = parse_iso_timestamp(Some(&iso));
    assert_eq!(parsed, 0);
}

#[test]
fn timestamp_pre_epoch_returns_zero() {
    // Year 1969 is before Unix epoch
    assert_eq!(parse_iso_timestamp(Some("1969-12-31T23:59:59Z")), 0);
}

#[test]
fn timestamp_invalid_month_day_returns_zero() {
    assert_eq!(parse_iso_timestamp(Some("2024-13-01T00:00:00Z")), 0); // month 13
    assert_eq!(parse_iso_timestamp(Some("2024-01-32T00:00:00Z")), 0); // day 32
}

#[test]
fn format_timestamp_u64_max_clamps_to_year_9999() {
    let result = format_unix_timestamp(u64::MAX);
    assert_eq!(result, "9999-12-31T23:59:59Z");
}

#[test]
fn format_timestamp_year_9999_boundary() {
    // Exact boundary: 253_402_300_799 = 9999-12-31T23:59:59Z
    let result = format_unix_timestamp(253_402_300_799);
    assert_eq!(result, "9999-12-31T23:59:59Z");

    // One second over the boundary still clamps
    let result_over = format_unix_timestamp(253_402_300_800);
    assert_eq!(result_over, "9999-12-31T23:59:59Z");
}
