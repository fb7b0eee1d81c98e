use std::cell::RefCell;
use std::sync::{Arc, RwLock};
use std::time::Duration;

use fault_manager::common::catalog::{FaultCatalog, FaultCatalogBuilder, FaultCatalogConfig};
use fault_manager::common::fault::{
    ComplianceVec, FaultDescriptor, FaultId, FaultRecord, FaultSeverity, FaultType, IpcTimestamp,
    LifecyclePhase, LifecycleStage,
};
use fault_manager::common::ids::SourceId;
use fault_manager::common::types::{
    to_static_long_string, to_static_short_string, LongString, MetadataVec,
};
use fault_manager::dfm_lib::fault_catalog_registry::FaultCatalogRegistry;
use fault_manager::dfm_lib::fault_code::{fault_id_from_code, fault_id_to_code};
use fault_manager::dfm_lib::fault_record_processor::FaultRecordProcessor;
use fault_manager::dfm_lib::operation_cycle::OperationCycleTracker;
use fault_manager::dfm_lib::sovd_fault_manager::{
    Error, SovdFault, SovdFaultManager, SovdFaultStatus,
};
use fault_manager::dfm_lib::sovd_fault_storage::{
    InMemoryStorage, SovdEnvData, SovdFaultState, SovdFaultStateStorage, StorageError,
};
use fault_manager::dfm_lib::timestamp::format_unix_timestamp;

fn build_catalog(config: FaultCatalogConfig) -> FaultCatalog {
    let json = format!("{config:?}");
    FaultCatalogBuilder::new().cfg_struct(config, json).unwrap().build()
}

/// A monotonic clock that the test moves.
struct TestClock {
    nanos: RefCell<u128>,
}

impl TestClock {
    fn advance(&self, d: Duration) {
        *self.nanos.borrow_mut() += d.as_nanos();
    }

    fn now(&self) -> u128 {
        *self.nanos.borrow()
    }
}

/// A storage that a processor and a manager share.
struct SharedStorage {
    inner: RefCell<InMemoryStorage>,
}

#[allow(dead_code)]
impl SharedStorage {
    fn new() -> Self {
        SharedStorage { inner: RefCell::new(InMemoryStorage::new()) }
    }

    fn put(&self, path: &str, id: &FaultId, state: SovdFaultState) -> Result<(), StorageError> {
        self.inner.borrow_mut().put(path, id, state)
    }

    fn get(&self, path: &str, id: &FaultId) -> Result<Option<SovdFaultState>, StorageError> {
        self.inner.borrow().get(path, id)
    }

    fn delete(&self, path: &str, id: &FaultId) -> Result<(), StorageError> {
        self.inner.borrow_mut().delete(path, id)
    }
}

/// A processor with its storage, cycle counts and clock.
struct Processor {
    storage: Arc<SharedStorage>,
    tracker: Arc<RwLock<OperationCycleTracker>>,
    clock: TestClock,
    inner: FaultRecordProcessor,
}

#[allow(dead_code)]
impl Processor {
    fn new(
        storage: Arc<SharedStorage>,
        registry: Arc<FaultCatalogRegistry>,
        tracker: Arc<RwLock<OperationCycleTracker>>,
    ) -> Self {
        Processor {
            storage,
            tracker,
            clock: TestClock { nanos: RefCell::new(1_000_000_000) },
            inner: FaultRecordProcessor::new(registry),
        }
    }

    fn process_record(&mut self, path: &LongString, record: &FaultRecord) {
        let now = self.clock.now();
        let tracker = self.tracker.read().unwrap();
        let mut storage = self.storage.inner.borrow_mut();
        self.inner.process_record(&mut *storage, &tracker, path, record, now, 1_700_000_000);
    }

    fn clear_dtc(&self, path: &str) {
        self.inner.clear_dtc(&mut *self.storage.inner.borrow_mut(), path);
    }

    fn on_new_operation_cycle(&self, path: &str) {
        self.inner.on_new_operation_cycle(&mut *self.storage.inner.borrow_mut(), path);
    }
}

/// A manager of queries with its storage.
struct Manager {
    storage: Arc<SharedStorage>,
    inner: SovdFaultManager,
}

impl Manager {
    fn new(storage: Arc<SharedStorage>, registry: Arc<FaultCatalogRegistry>) -> Self {
        Manager { storage, inner: SovdFaultManager::new(registry) }
    }

    fn get_all_faults(&self, path: &str) -> Result<Vec<SovdFault>, Error> {
        self.inner.get_all_faults(&*self.storage.inner.borrow(), path)
    }

    fn get_fault(&self, path: &str, code: &str) -> Result<(SovdFault, SovdEnvData), Error> {
        self.inner.get_fault(&*self.storage.inner.borrow(), path, code)
    }

    fn delete_fault(&self, path: &str, code: &str) -> Result<(), Error> {
        self.inner.delete_fault(&mut *self.storage.inner.borrow_mut(), path, code)
    }
}

fn make_processor_with_registry(
    storage: Arc<SharedStorage>,
    registry: Arc<FaultCatalogRegistry>,
) -> Processor {
    Processor::new(storage, registry, Arc::new(RwLock::new(OperationCycleTracker::new())))
}

fn make_text_registry() -> Arc<FaultCatalogRegistry> {
    let config = FaultCatalogConfig {
        id: "test_entity".into(),
        version: 1,
        faults: vec![
            FaultDescriptor {
                id: FaultId::Text(to_static_short_string("fault_a").unwrap()),
                name: to_static_short_string("Fault A").unwrap(),
                summary: None,
                category: FaultType::Software,
                severity: FaultSeverity::Warn,
                compliance: ComplianceVec::new(),
                reporter_side_debounce: None,
                reporter_side_reset: None,
                manager_side_debounce: None,
                manager_side_reset: None,
            },
            FaultDescriptor {
                id: FaultId::Text(to_static_short_string("fault_b").unwrap()),
                name: to_static_short_string("Fault B").unwrap(),
                summary: None,
                category: FaultType::Hardware,
                severity: FaultSeverity::Error,
                compliance: ComplianceVec::new(),
                reporter_side_debounce: None,
                reporter_side_reset: None,
                manager_side_debounce: None,
                manager_side_reset: None,
            },
        ],
    };
    let catalog = build_catalog(config);
    Arc::new(FaultCatalogRegistry::new(vec![catalog]))
}

fn make_mixed_registry() -> Arc<FaultCatalogRegistry> {
    let config = FaultCatalogConfig {
        id: "mixed_entity".into(),
        version: 1,
        faults: vec![
            FaultDescriptor {
                id: FaultId::Text(to_static_short_string("fault_text").unwrap()),
                name: to_static_short_string("Text Fault").unwrap(),
                summary: Some(to_static_long_string("A text-identified fault").unwrap()),
                category: FaultType::Software,
                severity: FaultSeverity::Warn,
                compliance: ComplianceVec::new(),
                reporter_side_debounce: None,
                reporter_side_reset: None,
                manager_side_debounce: None,
                manager_side_reset: None,
            },
            FaultDescriptor {
                id: FaultId::Numeric(0x1001),
                name: to_static_short_string("Numeric Fault").unwrap(),
                summary: Some(to_static_long_string("A numeric DTC-like fault").unwrap()),
                category: FaultType::Hardware,
                severity: FaultSeverity::Error,
                compliance: ComplianceVec::new(),
                reporter_side_debounce: None,
                reporter_side_reset: None,
                manager_side_debounce: None,
                manager_side_reset: None,
            },
            FaultDescriptor {
                id: FaultId::Uuid([
                    0x01, 0x02, 0x03, 0x04, 0x05, 0x06, 0x07, 0x08, 0x09, 0x0A, 0x0B, 0x0C, 0x0D,
                    0x0E, 0x0F, 0x10,
                ]),
                name: to_static_short_string("UUID Fault").unwrap(),
                summary: Some(to_static_long_string("A UUID-identified fault").unwrap()),
                category: FaultType::Communication,
                severity: FaultSeverity::Fatal,
                compliance: ComplianceVec::new(),
                reporter_side_debounce: None,
                reporter_side_reset: None,
                manager_side_debounce: None,
                manager_side_reset: None,
            },
        ],
    };
    let catalog = build_catalog(config);
    Arc::new(FaultCatalogRegistry::new(vec![catalog]))
}

fn make_registry() -> Arc<FaultCatalogRegistry> {
    let config = FaultCatalogConfig {
        id: "test_entity".into(),
        version: 1,
        faults: vec![FaultDescriptor {
            id: FaultId::Numeric(42),
            name: to_static_short_string("Test fault").unwrap(),
            summary: None,
            category: FaultType::Software,
            severity: FaultSeverity::Warn,
            compliance: ComplianceVec::new(),
            reporter_side_debounce: None,
            reporter_side_reset: None,
            manager_side_debounce: None,
            manager_side_reset: None,
        }],
    };
    let catalog = build_catalog(config);
    Arc::new(FaultCatalogRegistry::new(vec![catalog]))
}

fn make_record(fault_id: FaultId, stage: LifecycleStage) -> FaultRecord {
    FaultRecord {
        id: fault_id,
        time: IpcTimestamp::default(),
        source: SourceId {
            entity: to_static_short_string("test").unwrap(),
            ecu: None,
            domain: None,
            sw_component: None,
            instance: None,
        },
        lifecycle_phase: LifecyclePhase::Running,
        lifecycle_stage: stage,
        env_data: MetadataVec::new(),
    }
}

fn make_path(path: &str) -> LongString {
    LongString::from_str_truncated(path).unwrap()
}

#[test]
fn error_display_impl() {
    assert_eq!(Error::BadArgument.to_string(), "bad argument");
    assert_eq!(Error::NotFound.to_string(), "not found");
    assert_eq!(
        Error::Storage("disk full".into()).to_string(),
        "storage error: disk full"
    );
}

#[test]
fn error_is_std_error() {
    let err = Error::NotFound;
    assert_eq!(err.to_string(), "not found");
}

#[test]
fn status_mask_all_zeros() {
    let status = SovdFaultStatus::default();
    assert_eq!(status.compute_mask(), 0x00);
}

#[test]
fn status_mask_encodes_correctly() {
    let status = SovdFaultStatus {
        test_failed: Some(true),                  // 0x01
        confirmed_dtc: Some(true),                // 0x08
        test_failed_since_last_clear: Some(true), // 0x20
        ..Default::default()
    };
    assert_eq!(status.compute_mask(), 0x29);
}

#[test]
fn status_mask_all_bits_set() {
    let status = SovdFaultStatus {
        test_failed: Some(true),
        test_failed_this_operation_cycle: Some(true),
        pending_dtc: Some(true),
        confirmed_dtc: Some(true),
        test_not_completed_since_last_clear: Some(true),
        test_failed_since_last_clear: Some(true),
        test_not_completed_this_operation_cycle: Some(true),
        warning_indicator_requested: Some(true),
        mask: None,
    };
    assert_eq!(status.compute_mask(), 0xFF);
}

#[test]
fn from_state_converts_all_flags() {
    let state = SovdFaultState {
        test_failed: true,
        confirmed_dtc: true,
        pending_dtc: false,
        ..Default::default()
    };
    let status = SovdFaultStatus::from_state(&state);

    assert_eq!(status.test_failed, Some(true));
    assert_eq!(status.confirmed_dtc, Some(true));
    assert_eq!(status.pending_dtc, Some(false));
    assert!(status.mask.is_some());
    assert_eq!(status.mask.as_ref().unwrap(), "0x09"); // 0x01 | 0x08
}

#[test]
fn to_hash_map_produces_expected_keys() {
    let status = SovdFaultStatus {
        test_failed: Some(true),
        confirmed_dtc: Some(false),
        mask: Some("0x01".to_string()),
        ..Default::default()
    };
    let map = status.to_hash_map();

    assert_eq!(map.get_str("testFailed"), Some(&"1".to_string()));
    assert_eq!(map.get_str("confirmedDTC"), Some(&"0".to_string()));
    assert_eq!(map.get_str("mask"), Some(&"0x01".to_string()));
}

#[test]
fn format_unix_timestamp_iso8601() {
    assert_eq!(format_unix_timestamp(0), "1970-01-01T00:00:00Z");
    assert_eq!(format_unix_timestamp(86400), "1970-01-02T00:00:00Z");
    // 2024-01-15 09:50:00 UTC
    assert_eq!(format_unix_timestamp(1705312200), "2024-01-15T09:50:00Z");
    // Leap year: 2024-02-29 00:00:00 UTC (day 60 of 2024, which is leap)
    assert_eq!(format_unix_timestamp(1709164800), "2024-02-29T00:00:00Z");
    // Y2K: 2000-01-01 00:00:00 UTC
    assert_eq!(format_unix_timestamp(946684800), "2000-01-01T00:00:00Z");
}

#[test]
fn fault_id_from_code_parses_numeric_hex() {
    let id = fault_id_from_code("0x2A").unwrap();
    assert_eq!(id, FaultId::Numeric(0x2A));
}

#[test]
fn fault_id_from_code_parses_numeric_hex_uppercase() {
    let id = fault_id_from_code("0X1001").unwrap();
    assert_eq!(id, FaultId::Numeric(0x1001));
}

#[test]
fn fault_id_from_code_parses_uuid() {
    let id = fault_id_from_code("01020304-0506-0708-090a-0b0c0d0e0f10").unwrap();
    assert_eq!(
        id,
        FaultId::Uuid([1, 2, 3, 4, 5, 6, 7, 8, 9, 10, 11, 12, 13, 14, 15, 16])
    );
}

#[test]
fn fault_id_from_code_parses_text() {
    let id = fault_id_from_code("my_fault").unwrap();
    assert!(matches!(id, FaultId::Text(_)));
}

#[test]
fn fault_id_roundtrip_numeric() {
    let original = FaultId::Numeric(0x1001);
    let code = fault_id_to_code(&original);
    let parsed = fault_id_from_code(&code).unwrap();
    assert_eq!(original, parsed);
}

#[test]
fn fault_id_roundtrip_uuid() {
    let original =
        FaultId::Uuid([1, 2, 3, 4, 5, 6, 7, 8, 9, 10, 11, 12, 13, 14, 15, 16]);
    let code = fault_id_to_code(&original);
    let parsed = fault_id_from_code(&code).unwrap();
    assert_eq!(original, parsed);
}

#[test]
fn fault_id_roundtrip_text() {
    let original = FaultId::Text(to_static_short_string("my_fault").unwrap());
    let code = fault_id_to_code(&original);
    let parsed = fault_id_from_code(&code).unwrap();
    assert_eq!(original, parsed);
}

#[test]
fn fault_id_from_code_rejects_invalid_hex() {
    assert!(fault_id_from_code("0xGGGG").is_err());
}

#[test]
fn fault_id_from_code_invalid_uuid_falls_back_to_text() {
    // 36 chars with dashes but invalid hex -> falls back to Text
    let code = "ZZZZZZZZ-ZZZZ-ZZZZ-ZZZZ-ZZZZZZZZZZZZ";
    let id = fault_id_from_code(code).unwrap();
    assert!(matches!(id, FaultId::Text(_)));
}

#[test]
fn sovd_manager_get_all_faults() {
    let storage = Arc::new(SharedStorage::new());
    let registry = make_text_registry();

    // Pre-populate via processor
    let mut processor =
        make_processor_with_registry(Arc::clone(&storage), Arc::clone(&registry));
    let path = make_path("test_entity");

    let record1 = make_record(
        FaultId::Text(to_static_short_string("fault_a").unwrap()),
        LifecycleStage::Failed,
    );
    let record2 = make_record(
        FaultId::Text(to_static_short_string("fault_b").unwrap()),
        LifecycleStage::Passed,
    );
    processor.process_record(&path, &record1);
    processor.process_record(&path, &record2);

    let manager = Manager::new(storage, registry);
    let faults = manager.get_all_faults("test_entity");
    assert!(faults.is_ok());
    assert_eq!(faults.unwrap().len(), 2);
}

#[test]
fn sovd_manager_handles_empty_entity() {
    let storage = Arc::new(SharedStorage::new());
    let registry = make_registry();
    let manager = Manager::new(storage, registry);

    let result = manager.get_all_faults("nonexistent");
    // Should return Ok with empty or Err - either is acceptable
    if let Ok(faults) = result {
        assert!(faults.is_empty());
    }
}

#[test]
fn catalog_registry_lookup() {
    let config = FaultCatalogConfig {
        id: "my_entity".into(),
        version: 1,
        faults: vec![],
    };
    let catalog = build_catalog(config);
    let registry = FaultCatalogRegistry::new(vec![catalog]);

    assert!(registry.get("my_entity").is_some());
    assert!(registry.get("nonexistent").is_none());
}

#[test]
fn get_fault_missing_id_returns_not_found() {
    let storage = Arc::new(SharedStorage::new());
    let registry = make_text_registry();
    let manager = Manager::new(storage, registry);

    let result = manager.get_fault("test_entity", "nonexistent_fault");
    assert_eq!(result, Err(Error::NotFound));
}

#[test]
fn get_fault_bad_path_returns_bad_argument() {
    let storage = Arc::new(SharedStorage::new());
    let registry = make_text_registry();
    let manager = Manager::new(storage, registry);

    let result = manager.get_fault("nonexistent_entity", "fault_a");
    assert_eq!(result, Err(Error::BadArgument));
}

#[test]
fn sovd_fault_includes_typed_status() {
    let storage = Arc::new(SharedStorage::new());
    let registry = make_text_registry();
    let mut processor =
        make_processor_with_registry(Arc::clone(&storage), Arc::clone(&registry));
    let path = make_path("test_entity");

    let record = make_record(
        FaultId::Text(to_static_short_string("fault_a").unwrap()),
        LifecycleStage::Failed,
    );
    processor.process_record(&path, &record);

    let manager = Manager::new(storage, registry);
    let faults = manager.get_all_faults("test_entity").unwrap();
    let fault = faults.iter().find(|f| f.code == "fault_a").unwrap();

    assert!(fault.typed_status.is_some());
    let status = fault.typed_status.as_ref().unwrap();
    assert_eq!(status.test_failed, Some(true));
    assert_eq!(status.confirmed_dtc, Some(true));
    assert!(status.mask.is_some());
}

#[test]
fn sovd_fault_status_hashmap_includes_mask() {
    let storage = Arc::new(SharedStorage::new());
    let registry = make_text_registry();
    let mut processor =
        make_processor_with_registry(Arc::clone(&storage), Arc::clone(&registry));
    let path = make_path("test_entity");

    let record = make_record(
        FaultId::Text(to_static_short_string("fault_a").unwrap()),
        LifecycleStage::Failed,
    );
    processor.process_record(&path, &record);

    let manager = Manager::new(storage, registry);
    let faults = manager.get_all_faults("test_entity").unwrap();
    let fault = faults.iter().find(|f| f.code == "fault_a").unwrap();

    assert!(fault.status.get_str("mask").is_some());
    // testFailed=1, testFailedThisOpCycle=1, confirmedDTC=1, testFailedSinceLastClear=1
    // -> 0x01 | 0x02 | 0x08 | 0x20 = 0x2B
    assert_eq!(fault.status.get_str("mask"), Some(&"0x2B".to_string()));
}

#[test]
fn sovd_fault_includes_counters() {
    let storage = Arc::new(SharedStorage::new());
    let registry = make_text_registry();
    let mut processor =
        make_processor_with_registry(Arc::clone(&storage), Arc::clone(&registry));
    let path = make_path("test_entity");

    let record = make_record(
        FaultId::Text(to_static_short_string("fault_a").unwrap()),
        LifecycleStage::Failed,
    );
    processor.process_record(&path, &record);

    let manager = Manager::new(storage, registry);
    let faults = manager.get_all_faults("test_entity").unwrap();
    let fault = faults.iter().find(|f| f.code == "fault_a").unwrap();

    // occurrence_counter incremented on Failed
    assert_eq!(fault.occurrence_counter, Some(1));
    assert_eq!(fault.aging_counter, Some(0));
    assert_eq!(fault.healing_counter, Some(0));
}

#[test]
fn sovd_fault_preserves_existing_fields() {
    let storage = Arc::new(SharedStorage::new());
    let registry = make_text_registry();
    let mut processor =
        make_processor_with_registry(Arc::clone(&storage), Arc::clone(&registry));
    let path = make_path("test_entity");

    let record = make_record(
        FaultId::Text(to_static_short_string("fault_a").unwrap()),
        LifecycleStage::Failed,
    );
    processor.process_record(&path, &record);

    let manager = Manager::new(storage, registry);
    let faults = manager.get_all_faults("test_entity").unwrap();
    let fault = faults.iter().find(|f| f.code == "fault_a").unwrap();

    // Core fields
    assert_eq!(fault.code, "fault_a");
    assert_eq!(fault.fault_name, "Fault A");
    assert_eq!(fault.scope, "ecu");

    // Translation fields
    assert!(!fault.fault_translation_id.is_empty());
}

#[test]
fn sovd_manager_mixed_fault_id_variants() {
    let storage = Arc::new(SharedStorage::new());
    let registry = make_mixed_registry();
    let mut processor =
        make_processor_with_registry(Arc::clone(&storage), Arc::clone(&registry));
    let path = make_path("mixed_entity");

    // Process one record per variant
    let record_text = make_record(
        FaultId::Text(to_static_short_string("fault_text").unwrap()),
        LifecycleStage::Failed,
    );
    let record_numeric = make_record(FaultId::Numeric(0x1001), LifecycleStage::Failed);
    let record_uuid = make_record(
        FaultId::Uuid([
            0x01, 0x02, 0x03, 0x04, 0x05, 0x06, 0x07, 0x08, 0x09, 0x0A, 0x0B, 0x0C, 0x0D, 0x0E,
            0x0F, 0x10,
        ]),
        LifecycleStage::Failed,
    );
    processor.process_record(&path, &record_text);
    processor.process_record(&path, &record_numeric);
    processor.process_record(&path, &record_uuid);

    let manager = Manager::new(storage, registry);
    let faults = manager.get_all_faults("mixed_entity").unwrap();
    assert_eq!(faults.len(), 3);

    // Text fault -> code is the literal text
    let text_fault = faults.iter().find(|f| f.code == "fault_text").unwrap();
    assert_eq!(text_fault.fault_name, "Text Fault");
    assert_eq!(
        text_fault.typed_status.as_ref().unwrap().test_failed,
        Some(true)
    );

    // Numeric fault -> code is hex-formatted
    let numeric_fault = faults.iter().find(|f| f.code == "0x1001").unwrap();
    assert_eq!(numeric_fault.fault_name, "Numeric Fault");

    // UUID fault -> code is standard UUID format
    let uuid_fault = faults
        .iter()
        .find(|f| f.code == "01020304-0506-0708-090a-0b0c0d0e0f10")
        .unwrap();
    assert_eq!(uuid_fault.fault_name, "UUID Fault");
}

#[test]
fn sovd_manager_get_fault_numeric_code() {
    let storage = Arc::new(SharedStorage::new());
    let registry = make_mixed_registry();
    let mut processor =
        make_processor_with_registry(Arc::clone(&storage), Arc::clone(&registry));
    let path = make_path("mixed_entity");

    let record = make_record(FaultId::Numeric(0x1001), LifecycleStage::Failed);
    processor.process_record(&path, &record);

    let manager = Manager::new(storage, registry);
    let (fault, _env) = manager.get_fault("mixed_entity", "0x1001").unwrap();
    assert_eq!(fault.code, "0x1001");
    assert_eq!(fault.fault_name, "Numeric Fault");
}

#[test]
fn sovd_manager_get_fault_uuid_code() {
    let storage = Arc::new(SharedStorage::new());
    let registry = make_mixed_registry();
    let mut processor =
        make_processor_with_registry(Arc::clone(&storage), Arc::clone(&registry));
    let path = make_path("mixed_entity");

    let record = make_record(
        FaultId::Uuid([
            0x01, 0x02, 0x03, 0x04, 0x05, 0x06, 0x07, 0x08, 0x09, 0x0A, 0x0B, 0x0C, 0x0D, 0x0E,
            0x0F, 0x10,
        ]),
        LifecycleStage::Failed,
    );
    processor.process_record(&path, &record);

    let manager = Manager::new(storage, registry);
    let (fault, _env) = manager
        .get_fault("mixed_entity", "01020304-0506-0708-090a-0b0c0d0e0f10")
        .unwrap();
    assert_eq!(fault.code, "01020304-0506-0708-090a-0b0c0d0e0f10");
    assert_eq!(fault.fault_name, "UUID Fault");
}

#[test]
fn sovd_manager_delete_fault_numeric() {
    let storage = Arc::new(SharedStorage::new());
    let registry = make_mixed_registry();
    let mut processor =
        make_processor_with_registry(Arc::clone(&storage), Arc::clone(&registry));
    let path = make_path("mixed_entity");

    let record = make_record(FaultId::Numeric(0x1001), LifecycleStage::Failed);
    processor.process_record(&path, &record);

    let manager = Manager::new(storage, registry);
    let result = manager.delete_fault("mixed_entity", "0x1001");
    assert!(result.is_ok());
}

#[test]
fn sovd_fault_timestamp_iso8601_format() {

    let storage = Arc::new(SharedStorage::new());
    let registry = make_text_registry();

    // Manually inject a state with known timestamps
    let state = SovdFaultState {
        test_failed: true,
        confirmed_dtc: true,
        first_occurrence_secs: 946684800, // 2000-01-01T00:00:00Z
        last_occurrence_secs: 1705312200, // 2024-01-15T09:50:00Z
        ..Default::default()
    };
    storage
        .put(
            "test_entity",
            &FaultId::Text(to_static_short_string("fault_a").unwrap()),
            state,
        )
        .unwrap();

    let manager = Manager::new(storage, registry);
    let faults = manager.get_all_faults("test_entity").unwrap();
    let fault = faults.iter().find(|f| f.code == "fault_a").unwrap();

    assert_eq!(
        fault.first_occurrence.as_deref(),
        Some("2000-01-01T00:00:00Z")
    );
    assert_eq!(
        fault.last_occurrence.as_deref(),
        Some("2024-01-15T09:50:00Z")
    );
}

#[test]
fn sovd_fault_symptom_from_descriptor_summary() {

    let storage = Arc::new(SharedStorage::new());
    let registry = make_mixed_registry();

    // Inject a state for a descriptor that has a summary
    let state = SovdFaultState {
        test_failed: true,
        confirmed_dtc: true,
        ..Default::default()
    };
    storage
        .put("mixed_entity", &FaultId::Numeric(0x1001), state)
        .unwrap();

    let manager = Manager::new(storage, registry);
    let faults = manager.get_all_faults("mixed_entity").unwrap();
    let fault = faults.iter().find(|f| f.code == "0x1001").unwrap();

    assert_eq!(fault.symptom.as_deref(), Some("A numeric DTC-like fault"));
    assert!(fault.symptom_translation_id.is_some());
}
