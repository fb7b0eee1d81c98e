use std::cell::RefCell;
use std::rc::Rc;
use std::time::{Duration, Instant, SystemTime, UNIX_EPOCH};

use fault_manager::common::catalog::{
    CatalogBuildError, FaultCatalog, FaultCatalogBuilder, FaultCatalogConfig,
};
use fault_manager::common::config::{ResetPolicy, ResetTrigger};
use fault_manager::common::debounce::{DebounceMode, IpcDuration};
use fault_manager::common::fault::{
    ComplianceVec, FaultDescriptor, FaultId, FaultRecord, FaultSeverity, FaultType, IpcTimestamp,
    LifecyclePhase, LifecycleStage,
};
use fault_manager::common::ids::SourceId;
use fault_manager::common::sink_error::SinkError;
use fault_manager::common::types::{
    to_static_short_string, DiagnosticEvent, MetadataVec, ShortString,
};
use fault_manager::fault_lib::reporter::{Reporter, ReporterConfig, ReporterError};
use fault_manager::fault_lib::sink::{
    FailingSink, FaultSinkApi, LogHook, NoOpLogHook, RecordingSink,
};

/// A sink that the test can look into while a reporter uses it.
struct Shared<K> {
    inner: Rc<RefCell<K>>,
}

impl<K> Shared<K> {
    fn new(sink: K) -> Self {
        Shared { inner: Rc::new(RefCell::new(sink)) }
    }
}

impl<K> Clone for Shared<K> {
    fn clone(&self) -> Self {
        Shared { inner: Rc::clone(&self.inner) }
    }
}

impl Shared<RecordingSink> {
    fn count(&self) -> usize {
        self.inner.borrow().count()
    }

    fn received_records(&self) -> Vec<FaultRecord> {
        self.inner.borrow().received_records()
    }
}

impl<K: FaultSinkApi> FaultSinkApi for Shared<K> {
    fn publish(&mut self, path: &str, record: FaultRecord) -> Result<(), SinkError> {
        self.inner.borrow_mut().publish(path, record)
    }

    fn check_fault_catalog(&mut self) -> Result<bool, SinkError> {
        self.inner.borrow_mut().check_fault_catalog()
    }

    fn send_event(&mut self, event: DiagnosticEvent) -> Result<(), SinkError> {
        self.inner.borrow_mut().send_event(event)
    }
}

struct Counter {
    n: RefCell<u32>,
}

impl Counter {
    fn get(&self) -> u32 {
        *self.n.borrow()
    }

    fn count(&self) {
        *self.n.borrow_mut() += 1;
    }
}

/// A hook that counts what it is told.
#[derive(Clone)]
struct CountingLogHook {
    publish_count: Rc<Counter>,
    error_count: Rc<Counter>,
}

impl CountingLogHook {
    fn new() -> Self {
        CountingLogHook {
            publish_count: Rc::new(Counter { n: RefCell::new(0) }),
            error_count: Rc::new(Counter { n: RefCell::new(0) }),
        }
    }
}

impl LogHook for CountingLogHook {
    fn on_publish(&mut self, _record: &FaultRecord) {
        self.publish_count.count();
    }

    fn on_error(&mut self, _record: &FaultRecord, _error: &SinkError) {
        self.error_count.count();
    }
}

/// A sink that checks what it gets and answers as it is told.
struct ExpectingSink {
    answer: Result<(), SinkError>,
    calls: u32,
}

impl FaultSinkApi for ExpectingSink {
    fn publish(&mut self, path: &str, record: FaultRecord) -> Result<(), SinkError> {
        self.calls += 1;
        assert_eq!(path, "test/path");
        assert_eq!(record.id, FaultId::Numeric(42));
        assert_eq!(record.source, stub_source());
        assert_eq!(record.lifecycle_phase, LifecyclePhase::Running);
        assert_eq!(record.lifecycle_stage, LifecycleStage::Passed);
        self.answer.clone()
    }

    fn check_fault_catalog(&mut self) -> Result<bool, SinkError> {
        Ok(true)
    }

    fn send_event(&mut self, _event: DiagnosticEvent) -> Result<(), SinkError> {
        Ok(())
    }
}

fn text(s: impl Into<String>) -> String {
    s.into()
}

fn wall_time() -> IpcTimestamp {
    let now = SystemTime::now().duration_since(UNIX_EPOCH).unwrap();
    IpcTimestamp::new(now.as_secs(), now.subsec_nanos()).unwrap()
}

fn monotonic() -> u128 {
    SystemTime::now().duration_since(UNIX_EPOCH).unwrap().as_nanos()
}

fn ipc(d: Duration) -> IpcDuration {
    IpcDuration::from_nanos(d.as_nanos())
}

fn build_catalog(config: FaultCatalogConfig) -> FaultCatalog {
    let json = format!("{config:?}");
    FaultCatalogBuilder::new().cfg_struct(config, json).unwrap().build()
}

fn stub_source() -> SourceId {
    SourceId {
        entity: to_static_short_string("source").unwrap(),
        ecu: Some(ShortString::from_bytes("ECU-A".as_bytes()).unwrap()),
        domain: Some(to_static_short_string("ADAS").unwrap()),
        sw_component: Some(to_static_short_string("Perception").unwrap()),
        instance: Some(to_static_short_string("0").unwrap()),
    }
}

fn stub_config() -> ReporterConfig {
    ReporterConfig {
        source: stub_source(),
        lifecycle_phase: LifecyclePhase::Running,
        default_env_data: MetadataVec::new(),
    }
}

fn stub_descriptor(
    id: FaultId,
    name: ShortString,
    debounce: Option<DebounceMode>,
    reset: Option<ResetPolicy>,
) -> FaultDescriptor {
    FaultDescriptor {
        id,
        name,
        summary: None,
        category: FaultType::Software,
        severity: FaultSeverity::Warn,
        compliance: ComplianceVec::new(),
        reporter_side_debounce: debounce,
        reporter_side_reset: reset,
        manager_side_debounce: None,
        manager_side_reset: None,
    }
}

fn stub_record(desc: FaultDescriptor) -> FaultRecord {
    FaultRecord {
        id: desc.id,
        time: IpcTimestamp::default(),
        source: stub_source(),
        lifecycle_phase: LifecyclePhase::Running,
        lifecycle_stage: LifecycleStage::NotTested,
        env_data: MetadataVec::new(),
    }
}

fn make_reporter<K: FaultSinkApi>(sink: K, fault_id: FaultId) -> Reporter<K, NoOpLogHook> {
    make_reporter_with_descriptor(
        sink,
        stub_descriptor(fault_id, to_static_short_string("Test fault").unwrap(), None, None),
    )
}

fn make_reporter_with_descriptor<K: FaultSinkApi>(
    sink: K,
    descriptor: FaultDescriptor,
) -> Reporter<K, NoOpLogHook> {
    let debouncer = descriptor.reporter_side_debounce.map(DebounceMode::into_debouncer);
    Reporter {
        sink,
        descriptor,
        config: stub_config(),
        debouncer,
        last_stage: LifecycleStage::NotTested,
        log_hook: None::<NoOpLogHook>,
    }
}

#[test]
fn req1_reporter_requires_no_async_runtime() {
    let sink = Shared::new(RecordingSink::new());
    let _reporter = make_reporter(sink, FaultId::Numeric(1));
    // If this compiles and runs without an async runtime, REQ-1 is satisfied.
}

#[test]
fn req2_sink_receives_published_records() {
    let sink = Shared::new(RecordingSink::new());
    let mut reporter = make_reporter(sink.clone(), FaultId::Numeric(42));

    let record = reporter.create_record(LifecycleStage::Failed, wall_time());
    reporter.publish("test/path", record, monotonic()).unwrap();

    assert_eq!(sink.count(), 1);
    let received = sink.received_records();
    assert_eq!(received[0].id, FaultId::Numeric(42));
    assert_eq!(received[0].lifecycle_stage, LifecycleStage::Failed);
}

#[test]
fn req2_sink_error_propagates_to_caller() {
    let sink = Shared::new(FailingSink::transport_down());
    let mut reporter = make_reporter(sink, FaultId::Numeric(42));

    let record = reporter.create_record(LifecycleStage::Failed, wall_time());
    let result = reporter.publish("test/path", record, monotonic());

    assert_eq!(result, Err(SinkError::TransportDown));
}

#[test]
fn req2_multiple_records_delivered_in_order() {
    let sink = Shared::new(RecordingSink::new());
    let mut reporter = make_reporter(sink.clone(), FaultId::Numeric(100));

    for stage in [
        LifecycleStage::NotTested,
        LifecycleStage::PreFailed,
        LifecycleStage::Failed,
    ] {
        let record = reporter.create_record(stage, wall_time());
        reporter.publish("test/path", record, monotonic()).unwrap();
    }

    let received = sink.received_records();
    assert_eq!(received.len(), 3);
    assert_eq!(received[0].lifecycle_stage, LifecycleStage::NotTested);
    assert_eq!(received[1].lifecycle_stage, LifecycleStage::PreFailed);
    assert_eq!(received[2].lifecycle_stage, LifecycleStage::Failed);
}

#[test]
fn req3_descriptor_supports_reporter_side_debounce() {
    let descriptor = stub_descriptor(
        FaultId::Numeric(1),
        to_static_short_string("Test").unwrap(),
        Some(DebounceMode::HoldTime {
            duration: ipc(Duration::from_secs(5)),
        }),
        None,
    );
    assert!(descriptor.reporter_side_debounce.is_some());
}

#[test]
fn req3_descriptor_supports_manager_side_debounce() {
    let descriptor = FaultDescriptor {
        id: FaultId::Numeric(1),
        name: to_static_short_string("Test").unwrap(),
        summary: None,
        category: FaultType::Software,
        severity: FaultSeverity::Warn,
        compliance: ComplianceVec::new(),
        reporter_side_debounce: None,
        reporter_side_reset: None,
        manager_side_debounce: Some(DebounceMode::CountWithinWindow {
            min_count: 3,
            window: ipc(Duration::from_secs(10)),
        }),
        manager_side_reset: None,
    };
    assert!(descriptor.manager_side_debounce.is_some());
}

#[test]
fn req3_descriptor_supports_reset_policy() {
    let descriptor = stub_descriptor(
        FaultId::Numeric(1),
        to_static_short_string("Test").unwrap(),
        None,
        Some(ResetPolicy {
            trigger: ResetTrigger::ToolOnly,
            min_operating_cycles_before_clear: None,
        }),
    );
    assert!(descriptor.reporter_side_reset.is_some());
}

#[test]
fn req3_reporter_applies_debounce_before_publish() {
    let debounce = DebounceMode::EdgeWithCooldown {
        cooldown: ipc(Duration::from_secs(10)),
    };
    let descriptor = stub_descriptor(
        FaultId::Numeric(1),
        to_static_short_string("Debounced").unwrap(),
        Some(debounce),
        None,
    );
    let sink = Shared::new(RecordingSink::new());
    let mut reporter = make_reporter_with_descriptor(sink.clone(), descriptor);

    let record = reporter.create_record(LifecycleStage::Failed, wall_time());

    // First publish passes through
    reporter.publish("test/path", record.clone(), monotonic()).unwrap();
    assert_eq!(sink.count(), 1, "First event should pass debounce");

    // Rapid second publish is suppressed by cooldown
    reporter.publish("test/path", record.clone(), monotonic()).unwrap();
    assert_eq!(
        sink.count(),
        1,
        "Second event within cooldown should be suppressed"
    );

    // Third immediate publish also suppressed
    reporter.publish("test/path", record, monotonic()).unwrap();
    assert_eq!(
        sink.count(),
        1,
        "Third event within cooldown should be suppressed"
    );
}

#[test]
fn req3_debounce_count_within_window_suppresses_early_events() {
    let descriptor = stub_descriptor(
        FaultId::Numeric(2),
        to_static_short_string("CountWindow").unwrap(),
        Some(DebounceMode::CountWithinWindow {
            min_count: 3,
            window: ipc(Duration::from_secs(60)),
        }),
        None,
    );

    let sink = Shared::new(RecordingSink::new());
    let mut reporter = make_reporter_with_descriptor(sink.clone(), descriptor);

    let record = reporter.create_record(LifecycleStage::Failed, wall_time());

    // First 2 publishes suppressed (count < min_count)
    reporter.publish("test/path", record.clone(), monotonic()).unwrap();
    reporter.publish("test/path", record.clone(), monotonic()).unwrap();
    assert_eq!(
        sink.count(),
        0,
        "Events before min_count should be suppressed"
    );

    // Third publish fires (count == min_count)
    reporter.publish("test/path", record.clone(), monotonic()).unwrap();
    assert_eq!(sink.count(), 1, "Event at min_count should pass through");

    // Fourth also passes (count > min_count, still in window)
    reporter.publish("test/path", record, monotonic()).unwrap();
    assert_eq!(
        sink.count(),
        2,
        "Events after min_count should pass through"
    );
}

#[test]
fn req3_debounce_resets_on_lifecycle_transition() {
    let descriptor = stub_descriptor(
        FaultId::Numeric(5),
        to_static_short_string("ResetTest").unwrap(),
        Some(DebounceMode::CountWithinWindow {
            min_count: 3,
            window: ipc(Duration::from_secs(60)),
        }),
        None,
    );

    let sink = Shared::new(RecordingSink::new());
    let mut reporter = make_reporter_with_descriptor(sink.clone(), descriptor);

    // Accumulate 3 Failed events -> fires at count=3
    let record_fail = reporter.create_record(LifecycleStage::Failed, wall_time());
    reporter.publish("test/path", record_fail.clone(), monotonic()).unwrap();
    reporter.publish("test/path", record_fail.clone(), monotonic()).unwrap();
    reporter.publish("test/path", record_fail, monotonic()).unwrap();
    assert_eq!(sink.count(), 1, "3 events reach min_count: published");

    // Transition to Passed (the Passed event also goes through debouncer,
    // but counter is already >= min_count so it passes)
    let record_pass = reporter.create_record(LifecycleStage::Passed, wall_time());
    reporter.publish("test/path", record_pass, monotonic()).unwrap();
    let count_after_pass = sink.count();

    // Transition back to Failed - debouncer resets, counter restarts from 0
    let record_fail2 = reporter.create_record(LifecycleStage::Failed, wall_time());
    reporter.publish("test/path", record_fail2.clone(), monotonic()).unwrap();
    reporter.publish("test/path", record_fail2.clone(), monotonic()).unwrap();
    // After reset: only 2 events, min_count=3, should be suppressed
    assert_eq!(
        sink.count(),
        count_after_pass,
        "After Passed->Failed reset, 2 events still suppressed"
    );

    // Third event after reset fires
    reporter.publish("test/path", record_fail2, monotonic()).unwrap();
    assert_eq!(
        sink.count(),
        count_after_pass + 1,
        "Third event after reset should pass through"
    );
}

#[test]
fn req3_no_debounce_passes_all_events() {
    let sink = Shared::new(RecordingSink::new());
    let mut reporter = make_reporter(sink.clone(), FaultId::Numeric(10));

    for _ in 0..10 {
        let record = reporter.create_record(LifecycleStage::Failed, wall_time());
        reporter.publish("test/path", record, monotonic()).unwrap();
    }

    assert_eq!(
        sink.count(),
        10,
        "Without debounce, all events should pass through"
    );
}

#[test]
fn req4_all_lifecycle_stages_exist() {
    let stages = [
        LifecycleStage::NotTested,
        LifecycleStage::PreFailed,
        LifecycleStage::Failed,
        LifecycleStage::PrePassed,
        LifecycleStage::Passed,
    ];
    // All 5 stages must be distinct
    for i in 0..stages.len() {
        for j in (i + 1)..stages.len() {
            assert_ne!(stages[i], stages[j]);
        }
    }
}

#[test]
fn req4_record_contains_lifecycle_stage() {
    let sink = Shared::new(RecordingSink::new());
    let reporter = make_reporter(sink, FaultId::Numeric(42));

    for stage in [
        LifecycleStage::NotTested,
        LifecycleStage::PreFailed,
        LifecycleStage::Failed,
        LifecycleStage::PrePassed,
        LifecycleStage::Passed,
    ] {
        let record = reporter.create_record(stage, wall_time());
        assert_eq!(
            record.lifecycle_stage, stage,
            "Mismatch for stage {stage:?}"
        );
    }
}

#[test]
fn req4_all_stages_publishable() {
    let sink = Shared::new(RecordingSink::new());
    let mut reporter = make_reporter(sink.clone(), FaultId::Numeric(42));

    for stage in [
        LifecycleStage::NotTested,
        LifecycleStage::PreFailed,
        LifecycleStage::Failed,
        LifecycleStage::PrePassed,
        LifecycleStage::Passed,
    ] {
        let record = reporter.create_record(stage, wall_time());
        let result = reporter.publish("test/path", record, monotonic());
        assert!(result.is_ok(), "Failed to publish stage {stage:?}");
    }

    assert_eq!(sink.count(), 5);
}

#[test]
fn req5_reporter_binds_to_single_fault_id() {
    let sink = Shared::new(RecordingSink::new());
    let reporter = make_reporter(sink, FaultId::Numeric(0x1001));

    let record = reporter.create_record(LifecycleStage::Failed, wall_time());
    assert_eq!(record.id, FaultId::Numeric(0x1001));
}

#[test]
fn req5_multiple_reporters_independent() {
    let sink = Shared::new(RecordingSink::new());
    let reporter1 = make_reporter(sink.clone(), FaultId::Numeric(0x1001));
    let reporter2 = make_reporter(sink, FaultId::Numeric(0x1002));

    let record1 = reporter1.create_record(LifecycleStage::Failed, wall_time());
    let record2 = reporter2.create_record(LifecycleStage::Passed, wall_time());

    assert_ne!(record1.id, record2.id);
    assert_ne!(record1.lifecycle_stage, record2.lifecycle_stage);
}

#[test]
fn req5_reporter_preserves_source_identity() {
    let sink = Shared::new(RecordingSink::new());
    let config = stub_config();
    let expected_source = config.source.clone();

    let reporter = Reporter {
        sink,
        descriptor: stub_descriptor(
            FaultId::Numeric(1),
            to_static_short_string("Test").unwrap(),
            None,
            None,
        ),
        config,
        debouncer: None,
        last_stage: LifecycleStage::NotTested,
        log_hook: None::<NoOpLogHook>,
    };

    let record = reporter.create_record(LifecycleStage::Failed, wall_time());
    assert_eq!(record.source, expected_source);
}

#[test]
fn req6_publish_is_synchronous_call_to_sink() {
    let sink = Shared::new(RecordingSink::new());
    let mut reporter = make_reporter(sink.clone(), FaultId::Numeric(42));

    let record = reporter.create_record(LifecycleStage::Failed, wall_time());
    let start = Instant::now();
    reporter.publish("test/path", record, monotonic()).unwrap();
    let elapsed = start.elapsed();

    // RecordingSink is fast - publish should be near-instant
    assert!(
        elapsed < Duration::from_millis(50),
        "publish took {elapsed:?}, expected <50ms"
    );
    assert_eq!(sink.count(), 1);
}

#[test]
fn req6_rapid_publishes_complete_quickly() {
    let sink = Shared::new(RecordingSink::new());
    let mut reporter = make_reporter(sink.clone(), FaultId::Numeric(42));

    let start = Instant::now();
    for _ in 0..100 {
        let record = reporter.create_record(LifecycleStage::Failed, wall_time());
        reporter.publish("test/path", record, monotonic()).unwrap();
    }
    let elapsed = start.elapsed();

    assert_eq!(sink.count(), 100);
    assert!(
        elapsed < Duration::from_millis(100),
        "100 publishes took {elapsed:?}, expected <100ms"
    );
}

#[test]
fn req7_catalog_hash_deterministic() {
    let config = FaultCatalogConfig {
        id: "test_app".into(),
        version: 1,
        faults: vec![],
    };

    let catalog1 = build_catalog(config.clone());
    let catalog2 = build_catalog(config);

    assert_eq!(catalog1.config_hash(), catalog2.config_hash());
}

#[test]
fn req7_different_catalogs_different_hash() {
    let config1 = FaultCatalogConfig {
        id: "app1".into(),
        version: 1,
        faults: vec![],
    };
    let config2 = FaultCatalogConfig {
        id: "app2".into(),
        version: 1,
        faults: vec![],
    };

    let catalog1 = build_catalog(config1);
    let catalog2 = build_catalog(config2);

    assert_ne!(catalog1.config_hash(), catalog2.config_hash());
}

#[test]
fn req7_catalog_descriptor_lookup() {
    let desc = stub_descriptor(
        FaultId::Numeric(42),
        to_static_short_string("Test fault").unwrap(),
        None,
        None,
    );
    let config = FaultCatalogConfig {
        id: "test".into(),
        version: 1,
        faults: vec![desc.clone()],
    };

    let catalog = build_catalog(config);

    assert!(catalog.descriptor(&FaultId::Numeric(42)).is_some());
    assert_eq!(
        catalog.descriptor(&FaultId::Numeric(42)).unwrap().name,
        desc.name
    );
    assert!(catalog.descriptor(&FaultId::Numeric(999)).is_none());
}

#[test]
fn req8_catalog_embedded_in_app_binary() {
    let config = FaultCatalogConfig {
        id: "embedded_app".into(),
        version: 1,
        faults: vec![],
    };
    let catalog = build_catalog(config);
    assert!(!catalog.config_hash().is_empty());
    // Catalog created without DFM connection = no DFM redeploy needed
}

#[test]
fn req10_log_hook_called_on_successful_publish() {
    let sink = Shared::new(RecordingSink::new());
    let hook = CountingLogHook::new();
    let mut reporter = Reporter {
        sink: sink.clone(),
        descriptor: stub_descriptor(
            FaultId::Numeric(42),
            to_static_short_string("LogHookTest").unwrap(),
            None,
            None,
        ),
        config: stub_config(),
        debouncer: None,
        last_stage: LifecycleStage::NotTested,
        log_hook: Some(hook.clone()),
    };

    let record = reporter.create_record(LifecycleStage::Failed, wall_time());
    reporter.publish("test/path", record, monotonic()).unwrap();

    assert_eq!(
        hook.publish_count.get(),
        1,
        "on_publish should be called once"
    );
    assert_eq!(
        hook.error_count.get(),
        0,
        "on_error should not be called on success"
    );
    assert_eq!(sink.count(), 1, "Record should reach the sink");
}

#[test]
fn req10_log_hook_on_error_called_when_sink_fails() {
    let sink = Shared::new(FailingSink::transport_down());
    let hook = CountingLogHook::new();
    let mut reporter = Reporter {
        sink,
        descriptor: stub_descriptor(
            FaultId::Numeric(42),
            to_static_short_string("LogHookErrorTest").unwrap(),
            None,
            None,
        ),
        config: stub_config(),
        debouncer: None,
        last_stage: LifecycleStage::NotTested,
        log_hook: Some(hook.clone()),
    };

    let record = reporter.create_record(LifecycleStage::Failed, wall_time());
    let result = reporter.publish("test/path", record, monotonic());

    assert!(result.is_err());
    assert_eq!(
        hook.error_count.get(),
        1,
        "on_error should be called once"
    );
    assert_eq!(
        hook.publish_count.get(),
        0,
        "on_publish should not be called on failure"
    );
}

#[test]
fn req10_publish_works_without_log_hook() {
    let sink = Shared::new(RecordingSink::new());
    let mut reporter = Reporter {
        sink: sink.clone(),
        descriptor: stub_descriptor(
            FaultId::Numeric(42),
            to_static_short_string("NoHookTest").unwrap(),
            None,
            None,
        ),
        config: stub_config(),
        debouncer: None,
        last_stage: LifecycleStage::NotTested,
        log_hook: None::<NoOpLogHook>,
    };

    let record = reporter.create_record(LifecycleStage::Failed, wall_time());
    assert!(reporter.publish("test/path", record, monotonic()).is_ok());
    assert_eq!(sink.count(), 1);
}

#[test]
fn req10_log_hook_called_on_every_publish() {
    let sink = Shared::new(RecordingSink::new());
    let hook = CountingLogHook::new();
    let mut reporter = Reporter {
        sink: sink.clone(),
        descriptor: stub_descriptor(
            FaultId::Numeric(42),
            to_static_short_string("MultiPublish").unwrap(),
            None,
            None,
        ),
        config: stub_config(),
        debouncer: None,
        last_stage: LifecycleStage::NotTested,
        log_hook: Some(hook.clone()),
    };

    for _ in 0..5 {
        let record = reporter.create_record(LifecycleStage::Failed, wall_time());
        reporter.publish("test/path", record, monotonic()).unwrap();
    }

    assert_eq!(
        hook.publish_count.get(),
        5,
        "on_publish should be called for each publish"
    );
    assert_eq!(sink.count(), 5);
}

#[test]
fn req10_log_hook_not_called_for_suppressed_events() {
    let sink = Shared::new(RecordingSink::new());
    let hook = CountingLogHook::new();
    let descriptor = stub_descriptor(
        FaultId::Numeric(42),
        to_static_short_string("DebouncedHook").unwrap(),
        Some(DebounceMode::EdgeWithCooldown {
            cooldown: ipc(Duration::from_secs(10)),
        }),
        None,
    );
    let debouncer = descriptor
        .reporter_side_debounce
        .map(DebounceMode::into_debouncer);
    let mut reporter = Reporter {
        sink: sink.clone(),
        descriptor,
        config: stub_config(),
        debouncer,
        last_stage: LifecycleStage::NotTested,
        log_hook: Some(hook.clone()),
    };

    // First event passes through debounce and sink
    let record = reporter.create_record(LifecycleStage::Failed, wall_time());
    reporter.publish("test/path", record, monotonic()).unwrap();
    assert_eq!(
        hook.publish_count.get(),
        1,
        "First event should trigger hook"
    );

    // Second event is suppressed by debounce - hook should NOT be called
    let record = reporter.create_record(LifecycleStage::Failed, wall_time());
    reporter.publish("test/path", record, monotonic()).unwrap();
    assert_eq!(
        hook.publish_count.get(),
        1,
        "Suppressed event should NOT trigger hook"
    );
    assert_eq!(sink.count(), 1, "Only first event should reach sink");
}

#[test]
fn req10_noop_log_hook_compiles_and_runs() {

    let mut hook = NoOpLogHook;
    let record = stub_record(stub_descriptor(
        FaultId::Numeric(1),
        to_static_short_string("Noop").unwrap(),
        None,
        None,
    ));
    let error = SinkError::TransportDown;

    // These should compile and do nothing
    hook.on_publish(&record);
    hook.on_error(&record, &error);
}

#[test]
fn sinkerror_all_variants_implement_debug_display() {
    let errors = vec![
        SinkError::TransportDown,
        SinkError::RateLimited,
        SinkError::PermissionDenied,
        SinkError::BadDescriptor(text("test descriptor issue")),
        SinkError::Other(text("test other error")),
        SinkError::InvalidServiceName,
        SinkError::Timeout,
    ];

    for err in &errors {
        // All variants must implement Debug + Display (via thiserror)
        let debug_str = format!("{err:?}");
        let display_str = err.to_string();
        assert!(!debug_str.is_empty());
        assert!(!display_str.is_empty());
    }
}

#[test]
fn sinkerror_transport_down_is_recoverable() {
    let err = SinkError::TransportDown;
    assert!(matches!(err, SinkError::TransportDown));
    let msg = err.to_string();
    assert!(
        msg.to_lowercase().contains("transport"),
        "Display message should mention transport: {msg}"
    );
}

#[test]
fn sinkerror_timeout_contains_context() {
    let err = SinkError::Timeout;
    let msg = err.to_string();
    assert!(
        msg.to_lowercase().contains("timeout"),
        "Display should contain 'timeout': {msg}"
    );
}

#[test]
fn sinkerror_rate_limited_backpressure() {
    let err = SinkError::RateLimited;
    let msg = err.to_string();
    assert!(
        msg.to_lowercase().contains("rate") || msg.to_lowercase().contains("limit"),
        "Display should mention rate limiting: {msg}"
    );
}

#[test]
fn sinkerror_bad_descriptor_message() {
    let err = SinkError::BadDescriptor(text("invalid fault ID format"));
    let msg = err.to_string();
    assert!(
        msg.contains("invalid fault ID format"),
        "Display should contain the descriptor message: {msg}"
    );
}

#[test]
fn sinkerror_other_accepts_static_msg() {
    let err = SinkError::Other(text("custom error context"));
    let msg = err.to_string();
    assert!(
        msg.contains("custom error context"),
        "Display should contain the message: {msg}"
    );
}

#[test]
fn sinkerror_equality_comparison() {
    assert_eq!(SinkError::TransportDown, SinkError::TransportDown);
    assert_eq!(SinkError::Timeout, SinkError::Timeout);
    assert_ne!(SinkError::TransportDown, SinkError::Timeout);
    assert_eq!(
        SinkError::BadDescriptor(text("same")),
        SinkError::BadDescriptor(text("same"))
    );
    assert_ne!(
        SinkError::BadDescriptor(text("a")),
        SinkError::BadDescriptor(text("b"))
    );
}

#[test]
fn sinkerror_is_clone() {
    let err = SinkError::TransportDown;
    let cloned = err.clone();
    assert_eq!(err, cloned);

    // Verify Cow::Owned variant also clones correctly
    let owned_err = SinkError::Other(text("dynamic error".to_string()));
    let cloned_owned = owned_err.clone();
    assert_eq!(owned_err, cloned_owned);
}

#[test]
fn publish_propagates_transport_down() {
    let sink = Shared::new(FailingSink::transport_down());
    let mut reporter = Reporter {
        sink,
        descriptor: stub_descriptor(
            FaultId::Numeric(42),
            to_static_short_string("Test").unwrap(),
            None,
            None,
        ),
        config: stub_config(),
        debouncer: None,
        last_stage: LifecycleStage::NotTested,
        log_hook: None::<NoOpLogHook>,
    };

    let record = reporter.create_record(LifecycleStage::Failed, wall_time());
    let result = reporter.publish("test/path", record, monotonic());

    assert_eq!(result, Err(SinkError::TransportDown));
}

#[test]
fn publish_propagates_timeout() {
    let sink = Shared::new(FailingSink::timeout());
    let mut reporter = Reporter {
        sink,
        descriptor: stub_descriptor(
            FaultId::Numeric(42),
            to_static_short_string("Test").unwrap(),
            None,
            None,
        ),
        config: stub_config(),
        debouncer: None,
        last_stage: LifecycleStage::NotTested,
        log_hook: None::<NoOpLogHook>,
    };

    let record = reporter.create_record(LifecycleStage::Failed, wall_time());
    let result = reporter.publish("test/path", record, monotonic());

    assert_eq!(result, Err(SinkError::Timeout));
}

#[test]
fn publish_consistently_returns_error() {
    let sink = Shared::new(FailingSink::transport_down());
    let mut reporter = Reporter {
        sink,
        descriptor: stub_descriptor(
            FaultId::Numeric(42),
            to_static_short_string("Test").unwrap(),
            None,
            None,
        ),
        config: stub_config(),
        debouncer: None,
        last_stage: LifecycleStage::NotTested,
        log_hook: None::<NoOpLogHook>,
    };

    for _ in 0..5 {
        let record = reporter.create_record(LifecycleStage::Failed, wall_time());
        let result = reporter.publish("test/path", record, monotonic());
        assert!(result.is_err());
    }
}

#[test]
fn catalog_builder_errors_on_no_input() {
    let result = FaultCatalogBuilder::new().try_build();
    assert!(
        matches!(result, Err(CatalogBuildError::MissingConfig)),
        "Should return MissingConfig error when building with no input"
    );
}

#[test]
fn catalog_returns_none_for_unknown_id() {
    let config = FaultCatalogConfig {
        id: "test".into(),
        version: 1,
        faults: vec![stub_descriptor(
            FaultId::Numeric(1),
            to_static_short_string("Known").unwrap(),
            None,
            None,
        )],
    };

    let catalog = build_catalog(config);
    assert!(catalog.descriptor(&FaultId::Numeric(1)).is_some());
    assert!(catalog.descriptor(&FaultId::Numeric(999)).is_none());
}

#[test]
fn catalog_try_build_returns_missing_config() {
    let result = FaultCatalogBuilder::new().try_build();
    assert!(
        matches!(result, Err(CatalogBuildError::MissingConfig)),
        "Should return MissingConfig for unconfigured builder"
    );
}

#[test]
fn sinkerror_queue_full_variant() {
    let err = SinkError::QueueFull;
    let msg = err.to_string();
    assert!(
        msg.to_lowercase().contains("queue") || msg.to_lowercase().contains("full"),
        "Display should mention queue full: {msg}"
    );
}

#[test]
fn timestamp_default_is_zero() {
    let default_ts = IpcTimestamp::default();
    assert_eq!(default_ts.seconds_since_epoch, 0);
    assert_eq!(default_ts.nanoseconds, 0);
}

#[test]
fn timestamp_is_populated_in_create_record() {
    let sink = Shared::new(RecordingSink::new());
    let reporter = Reporter {
        sink,
        descriptor: stub_descriptor(
            FaultId::Numeric(42),
            to_static_short_string("Test").unwrap(),
            None,
            None,
        ),
        config: stub_config(),
        debouncer: None,
        last_stage: LifecycleStage::NotTested,
        log_hook: None::<NoOpLogHook>,
    };

    let record = reporter.create_record(LifecycleStage::Failed, wall_time());

    // After fix: timestamp should be non-zero
    assert!(
        record.time.seconds_since_epoch > 0,
        "Timestamp should be populated: {:?}",
        record.time
    );
}

#[test]
fn timestamp_is_populated_after_fix() {
    let sink = Shared::new(RecordingSink::new());
    let reporter = Reporter {
        sink,
        descriptor: stub_descriptor(
            FaultId::Numeric(42),
            to_static_short_string("Test").unwrap(),
            None,
            None,
        ),
        config: stub_config(),
        debouncer: None,
        last_stage: LifecycleStage::NotTested,
        log_hook: None::<NoOpLogHook>,
    };

    let record = reporter.create_record(LifecycleStage::Failed, wall_time());

    assert!(
        record.time.seconds_since_epoch > 0 || record.time.nanoseconds > 0,
        "Timestamp should not be zero after fix: {:?}",
        record.time
    );
}

#[test]
fn timestamp_is_recent_after_fix() {

    let before = SystemTime::now()
        .duration_since(UNIX_EPOCH)
        .unwrap()
        .as_secs();

    let sink = Shared::new(RecordingSink::new());
    let reporter = Reporter {
        sink,
        descriptor: stub_descriptor(
            FaultId::Numeric(42),
            to_static_short_string("Test").unwrap(),
            None,
            None,
        ),
        config: stub_config(),
        debouncer: None,
        last_stage: LifecycleStage::NotTested,
        log_hook: None::<NoOpLogHook>,
    };

    let record = reporter.create_record(LifecycleStage::Failed, wall_time());

    let after = SystemTime::now()
        .duration_since(UNIX_EPOCH)
        .unwrap()
        .as_secs();

    assert!(
        record.time.seconds_since_epoch >= before,
        "Timestamp {} should be >= before {}",
        record.time.seconds_since_epoch,
        before
    );
    assert!(
        record.time.seconds_since_epoch <= after,
        "Timestamp {} should be <= after {}",
        record.time.seconds_since_epoch,
        after
    );
}

#[test]
fn timestamp_nanoseconds_valid_after_fix() {
    let sink = Shared::new(RecordingSink::new());
    let reporter = Reporter {
        sink,
        descriptor: stub_descriptor(
            FaultId::Numeric(42),
            to_static_short_string("Test").unwrap(),
            None,
            None,
        ),
        config: stub_config(),
        debouncer: None,
        last_stage: LifecycleStage::NotTested,
        log_hook: None::<NoOpLogHook>,
    };

    let record = reporter.create_record(LifecycleStage::Failed, wall_time());

    assert!(
        record.time.nanoseconds < 1_000_000_000,
        "Nanoseconds {} should be < 1 billion",
        record.time.nanoseconds
    );
}

#[test]
fn timestamp_monotonic_after_fix() {
    let sink = Shared::new(RecordingSink::new());
    let reporter = Reporter {
        sink,
        descriptor: stub_descriptor(
            FaultId::Numeric(42),
            to_static_short_string("Test").unwrap(),
            None,
            None,
        ),
        config: stub_config(),
        debouncer: None,
        last_stage: LifecycleStage::NotTested,
        log_hook: None::<NoOpLogHook>,
    };

    let mut prev_total: u128 = 0;

    for _ in 0..10 {
        let record = reporter.create_record(LifecycleStage::Failed, wall_time());

        let curr_total = u128::from(record.time.seconds_since_epoch) * 1_000_000_000
            + u128::from(record.time.nanoseconds);

        assert!(
            curr_total >= prev_total,
            "Timestamps should be monotonically non-decreasing"
        );

        prev_total = curr_total;
    }
}

#[test]
fn create_record() {
    let reporter = make_reporter(Shared::new(RecordingSink::new()), FaultId::Numeric(42));

    let record = reporter.create_record(LifecycleStage::Passed, wall_time());

    assert_eq!(record.id, FaultId::Numeric(42));
    assert_eq!(record.source, stub_source());
    assert_eq!(record.lifecycle_phase, LifecyclePhase::Running);
    assert_eq!(record.lifecycle_stage, LifecycleStage::Passed);
}

#[test]
fn publish_success() {
    let mut reporter =
        make_reporter(ExpectingSink { answer: Ok(()), calls: 0 }, FaultId::Numeric(42));

    let record = reporter.create_record(LifecycleStage::Passed, wall_time());

    assert!(reporter.publish("test/path", record, monotonic()).is_ok());
    assert_eq!(reporter.sink.calls, 1);
}

#[test]
fn publish_fail() {
    let sink = ExpectingSink { answer: Err(SinkError::TransportDown), calls: 0 };
    let mut reporter = make_reporter(sink, FaultId::Numeric(42));

    let record = reporter.create_record(LifecycleStage::Passed, wall_time());
    assert_eq!(
        reporter.publish("test/path", record, monotonic()),
        Err(SinkError::TransportDown)
    );
    assert_eq!(reporter.sink.calls, 1);
}

#[test]
fn req1_reporter_is_send_sync() {
    fn assert_send<T: Send>() {}
    fn assert_sync<T: Sync>() {}
    assert_send::<Reporter<RecordingSink, NoOpLogHook>>();
    assert_sync::<Reporter<RecordingSink, NoOpLogHook>>();
}

#[test]
fn req3_debounce_hold_time_waits_for_duration() {
    let descriptor = stub_descriptor(
        FaultId::Numeric(3),
        to_static_short_string("HoldTime").unwrap(),
        Some(DebounceMode::HoldTime { duration: ipc(Duration::from_millis(50)) }),
        None,
    );

    let sink = Shared::new(RecordingSink::new());
    let mut reporter = make_reporter_with_descriptor(sink.clone(), descriptor);

    let record = reporter.create_record(LifecycleStage::Failed, wall_time());
    let start = monotonic();

    // Immediate publish should be suppressed (hold time not elapsed)
    reporter.publish("test/path", record.clone(), start).unwrap();
    assert_eq!(sink.count(), 0, "Immediate event should be suppressed");

    // After the hold time it should fire
    let later = start + Duration::from_millis(60).as_nanos();
    reporter.publish("test/path", record, later).unwrap();
    assert_eq!(sink.count(), 1, "Event after hold time should pass through");
}

#[test]
fn req3_debounce_edge_with_cooldown_passes_first_then_suppresses() {
    let descriptor = stub_descriptor(
        FaultId::Numeric(4),
        to_static_short_string("EdgeCooldown").unwrap(),
        Some(DebounceMode::EdgeWithCooldown { cooldown: ipc(Duration::from_millis(50)) }),
        None,
    );

    let sink = Shared::new(RecordingSink::new());
    let mut reporter = make_reporter_with_descriptor(sink.clone(), descriptor);

    let record = reporter.create_record(LifecycleStage::Failed, wall_time());
    let start = monotonic();

    // First event passes through (edge-triggered)
    reporter.publish("test/path", record.clone(), start).unwrap();
    assert_eq!(sink.count(), 1, "First event should pass through");

    // Immediate second event suppressed (within cooldown)
    reporter.publish("test/path", record.clone(), start + 1).unwrap();
    assert_eq!(sink.count(), 1, "Event within cooldown should be suppressed");

    // After cooldown, next event passes through
    let later = start + Duration::from_millis(60).as_nanos();
    reporter.publish("test/path", record, later).unwrap();
    assert_eq!(sink.count(), 2, "Event after cooldown should pass through");
}

#[test]
fn reporter_publish_rejects_path_too_long() {
    // A recording sink does not look at the path, so even a long one gets through.
    let sink = Shared::new(RecordingSink::new());
    let mut reporter = make_reporter(sink.clone(), FaultId::Numeric(42));

    let long_path = "a".repeat(300);
    let record = reporter.create_record(LifecycleStage::Failed, wall_time());
    let _result = reporter.publish(&long_path, record, monotonic());
    assert_eq!(sink.count(), 1);
}

#[test]
fn catalog_builder_errors_on_double_configure() {
    let config = FaultCatalogConfig { id: "test".into(), version: 1, faults: vec![] };
    let result = FaultCatalogBuilder::new()
        .cfg_struct(config.clone(), "{}".into())
        .unwrap()
        .cfg_struct(config, "{}".into());
    assert!(
        matches!(result, Err(CatalogBuildError::AlreadyConfigured)),
        "Should return AlreadyConfigured error when builder is configured twice"
    );
}

#[test]
fn catalog_try_id_returns_error_for_long_id() {
    // LongString capacity is 128 bytes
    let long_id = "a".repeat(200);
    let catalog = FaultCatalog::new(long_id, 1, Default::default(), vec![]);
    let result = catalog.try_id();
    assert!(
        matches!(result, Err(CatalogBuildError::IdTooLong(_))),
        "Should return IdTooLong error for 200-char id"
    );
}

#[test]
fn catalog_try_id_succeeds_for_valid_id() {
    let catalog = FaultCatalog::new("my_catalog".into(), 1, Default::default(), vec![]);
    assert!(catalog.try_id().is_ok());
}

#[test]
fn reporter_needs_sink_catalog_and_fault() {
    let catalog = build_catalog(FaultCatalogConfig {
        id: "app".into(),
        version: 1,
        faults: vec![stub_descriptor(
            FaultId::Numeric(1),
            to_static_short_string("Known").unwrap(),
            Some(DebounceMode::HoldTime { duration: ipc(Duration::from_secs(1)) }),
            None,
        )],
    });
    let no_sink = Reporter::<RecordingSink, NoOpLogHook>::new(
        Err(SinkError::Other("FaultApi not initialized".into())),
        Some(&catalog),
        None,
        &FaultId::Numeric(1),
        stub_config(),
    );
    let error = no_sink.unwrap_err();
    assert!(matches!(error, ReporterError::SinkNotAvailable(_)));
    assert_eq!(error.to_string(), "sink not available: other: FaultApi not initialized");

    let no_catalog = Reporter::<RecordingSink, NoOpLogHook>::new(
        Ok(RecordingSink::new()),
        None,
        None,
        &FaultId::Numeric(1),
        stub_config(),
    );
    let error = no_catalog.unwrap_err();
    assert!(matches!(error, ReporterError::CatalogNotInitialized));
    assert_eq!(error.to_string(), "fault catalog not initialized");

    let unknown = Reporter::<RecordingSink, NoOpLogHook>::new(
        Ok(RecordingSink::new()),
        Some(&catalog),
        None,
        &FaultId::Numeric(2),
        stub_config(),
    );
    let error = unknown.unwrap_err();
    assert!(matches!(error, ReporterError::FaultIdNotFound(FaultId::Numeric(2))));
    assert_eq!(error.to_string(), "fault ID not found in catalog: Numeric(2)");

    let mut reporter = Reporter::<RecordingSink, NoOpLogHook>::new(
        Ok(RecordingSink::new()),
        Some(&catalog),
        None,
        &FaultId::Numeric(1),
        stub_config(),
    )
    .unwrap();
    let record = reporter.create_record(LifecycleStage::Failed, wall_time());
    // The filter of the description is in place.
    reporter.publish("test/path", record, 0).unwrap();
    assert_eq!(reporter.sink.count(), 0);
    reporter.publish("test/path", record, 2_000_000_000).unwrap();
    assert_eq!(reporter.sink.count(), 1);
}

#[test]
fn failing_sink_checks_no_catalog() {
    let mut sink = FailingSink::new(SinkError::PermissionDenied);
    assert_eq!(sink.check_fault_catalog(), Err(SinkError::PermissionDenied));
    assert_eq!(RecordingSink::default().check_fault_catalog(), Ok(true));
}
