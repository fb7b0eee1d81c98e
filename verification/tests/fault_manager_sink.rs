use fault_manager::common::catalog::{FaultCatalog, FaultCatalogBuilder, FaultCatalogConfig};
use fault_manager::common::config::ResetPolicy;
use fault_manager::common::debounce::DebounceMode;
use fault_manager::common::fault::{
    ComplianceVec, FaultDescriptor, FaultId, FaultRecord, FaultSeverity, FaultType, IpcTimestamp,
    LifecyclePhase, LifecycleStage,
};
use fault_manager::common::ids::SourceId;
use fault_manager::common::sink_error::SinkError;
use fault_manager::common::types::{
    to_static_long_string, to_static_short_string, DiagnosticEvent, MetadataVec, Sha256Vec,
    ShortString,
};
use fault_manager::fault_lib::fault_manager_sink::{
    hash_check_elapsed, hash_check_received, is_valid_path, FaultManagerError, FaultManagerSink,
    HashCheckStep, SinkInitError, WorkerMsg, MAX_PATH_LENGTH,
};
use fault_manager::fault_lib::ipc_worker::WorkerInput;

fn stub_source() -> SourceId {
    SourceId {
        entity: to_static_short_string("source").unwrap(),
        ecu: Some(ShortString::from_bytes("ECU-A".as_bytes()).unwrap()),
        domain: Some(to_static_short_string("ADAS").unwrap()),
        sw_component: Some(to_static_short_string("Perception").unwrap()),
        instance: Some(to_static_short_string("0").unwrap()),
    }
}

fn stub_descriptor(
    id: FaultId,
    name: ShortString,
    debounce: Option<DebounceMode>,
    reset: Option<ResetPolicy>,
) -> FaultDescriptor {
    FaultDescriptor {
        id,
        name,
        summary: None,
        category: FaultType::Software,
        severity: FaultSeverity::Warn,
        compliance: ComplianceVec::new(),
        reporter_side_debounce: debounce,
        reporter_side_reset: reset,
        manager_side_debounce: None,
        manager_side_reset: None,
    }
}

fn stub_record(desc: FaultDescriptor) -> FaultRecord {
    FaultRecord {
        id: desc.id,
        time: IpcTimestamp::default(),
        source: stub_source(),
        lifecycle_phase: LifecyclePhase::Running,
        lifecycle_stage: LifecycleStage::NotTested,
        env_data: MetadataVec::new(),
    }
}

fn descriptor(id: u32, name: &str) -> FaultDescriptor {
    let name = ShortString::from_bytes(name.as_bytes()).unwrap();
    stub_descriptor(FaultId::Numeric(id), name, None, None)
}

#[test]
fn path_traversal_rejected() {
    assert!(!is_valid_path("entity/../etc"));
    assert!(!is_valid_path("entity/.."));
    assert!(!is_valid_path("../entity"));
    assert!(!is_valid_path("a/b/../c"));
}

#[test]
fn single_dots_in_path_allowed() {
    assert!(is_valid_path("entity/v1.2.3/sub"));
    assert!(is_valid_path("entity.name"));
    assert!(is_valid_path("a.b.c"));
}

#[test]
fn empty_path_rejected() {
    assert!(!is_valid_path(""));
}

#[test]
fn path_starting_with_slash_rejected() {
    assert!(!is_valid_path("/entity"));
}

#[test]
fn path_ending_with_slash_rejected() {
    assert!(!is_valid_path("entity/"));
}

#[test]
fn valid_paths_accepted() {
    assert!(is_valid_path("entity"));
    assert!(is_valid_path("test/path"));
    assert!(is_valid_path("a/b/c"));
    assert!(is_valid_path("entity-name_v1"));
}

#[test]
fn path_with_special_chars_rejected() {
    assert!(!is_valid_path("entity path"));
    assert!(!is_valid_path("entity@name"));
    assert!(!is_valid_path("entity#1"));
}

#[test]
fn sink_init_error_display() {
    let err = SinkInitError::ThreadSpawn("os error".into());
    assert!(err.to_string().contains("thread spawn failed"));

    let err = SinkInitError::WorkerInit("timeout".into());
    assert!(err.to_string().contains("worker initialization failed"));

    let err = SinkInitError::IpcService("no shm".into());
    assert!(err.to_string().contains("IPC service creation failed"));

    let err = SinkInitError::Channel("disconnected".into());
    assert!(err.to_string().contains("channel error"));
}

#[test]
fn test_publish_sends_event_message() {
    let mut client = FaultManagerSink::new();
    let desc = descriptor(42, "Test Fault");

    let result = client.publish("test/path", stub_record(desc));
    assert!(result.is_ok());

    match client.receive(false) {
        WorkerInput::Message(WorkerMsg::Event(DiagnosticEvent::Fault((path, record)))) => {
            assert_eq!(path.to_string(), "test/path");
            assert_eq!(record.id, FaultId::Numeric(42));
        },
        other => panic!("Received wrong message type: {other:?}"),
    }
}

#[test]
fn test_drop_sends_exit_message() {
    let mut client = FaultManagerSink::new();
    client.signal(WorkerMsg::Exit);
    assert!(matches!(client.receive(true), WorkerInput::Message(WorkerMsg::Exit)));
    assert!(matches!(client.receive(true), WorkerInput::Disconnected));
}

#[test]
fn publish_rejects_when_queue_is_full() {
    // A very small queue to fill up
    let mut client = FaultManagerSink::with_capacity(1);
    let desc = descriptor(1, "Test");

    // First publish fills the queue
    assert!(client.publish("test/path", stub_record(desc.clone())).is_ok());

    // Second publish should fail with QueueFull
    let result = client.publish("test/path", stub_record(desc));
    assert!(matches!(result, Err(SinkError::QueueFull)));
}

#[test]
fn fault_manager_sink_publish_rejects_path_too_long() {
    let mut client = FaultManagerSink::new();
    let desc = descriptor(1, "Test");

    let long_path = "a".repeat(MAX_PATH_LENGTH + 1);
    let result = client.publish(&long_path, stub_record(desc));
    assert!(matches!(result, Err(SinkError::BadDescriptor(_))));
    assert_eq!(
        result.unwrap_err().to_string(),
        "invalid descriptor: path too long: 129 bytes (max 128)"
    );
}

#[test]
fn publish_rejects_invalid_path_format() {
    let mut client = FaultManagerSink::new();
    let desc = descriptor(1, "Test");

    let result = client.publish("../etc/passwd", stub_record(desc.clone()));
    assert!(matches!(result, Err(SinkError::BadDescriptor(_))));
    assert_eq!(result.unwrap_err().to_string(), "invalid descriptor: invalid path format");

    let result = client.publish("", stub_record(desc));
    assert!(matches!(result, Err(SinkError::BadDescriptor(_))));
}

#[test]
fn publish_rejects_letters_that_do_not_fit() {
    let mut client = FaultManagerSink::new();
    assert!(is_valid_path("caf\u{e9}"));
    let result = client.publish("caf\u{e9}", stub_record(descriptor(1, "Test")));
    assert_eq!(
        result.unwrap_err().to_string(),
        "invalid descriptor: path exceeds LongString capacity: 5 bytes"
    );
    assert!(!is_valid_path("caf\u{2603}"));
}

#[test]
fn send_event_succeeds_with_open_channel() {
    let mut client = FaultManagerSink::new();
    let event =
        DiagnosticEvent::Hash((to_static_long_string("test").unwrap(), Sha256Vec::default()));
    assert!(client.send_event(event).is_ok());
}

#[test]
fn send_event_fails_on_disconnected_channel() {
    let mut client = FaultManagerSink::new();
    client.disconnect();

    let event =
        DiagnosticEvent::Hash((to_static_long_string("test").unwrap(), Sha256Vec::default()));
    let result = client.send_event(event);
    assert!(result.is_err());
    assert_eq!(
        result.unwrap_err(),
        SinkError::Other("Cannot send event: channel disconnected".into())
    );
}

#[test]
fn drop_without_thread_is_safe() {
    let client = FaultManagerSink::new();
    drop(client);
}

#[test]
fn hash_check_sends_id_and_hash() {
    let config = FaultCatalogConfig { id: "hvac".into(), version: 1, faults: vec![] };
    let catalog =
        FaultCatalogBuilder::new().cfg_struct(config, "abc".into()).unwrap().build();
    let mut client = FaultManagerSink::with_capacity(1);
    client.begin_hash_check(&catalog).unwrap();
    assert_eq!(client.begin_hash_check(&catalog), Err(SinkError::QueueFull));
    match client.receive(false) {
        WorkerInput::Message(WorkerMsg::Event(DiagnosticEvent::Hash((id, hash)))) => {
            assert_eq!(id.to_string(), "hvac");
            assert_eq!(hash.to_vec(), catalog.config_hash().to_vec());
        },
        other => panic!("Received wrong message type: {other:?}"),
    }
    client.disconnect();
    assert_eq!(
        client.begin_hash_check(&catalog),
        Err(SinkError::Other("Cannot send hash check: channel disconnected".into()))
    );
}

#[test]
fn hash_check_refuses_what_does_not_fit() {
    let mut client = FaultManagerSink::new();
    let long_id = FaultCatalog::new("a".repeat(200), 1, Default::default(), vec![]);
    let error = client.begin_hash_check(&long_id).unwrap_err();
    assert!(error.to_string().starts_with("other: catalog id error: catalog id too long for IPC: a"));
    let long_hash = FaultCatalog::new("hvac".into(), 1, Default::default(), vec![0; 33]);
    assert_eq!(
        client.begin_hash_check(&long_hash),
        Err(SinkError::Other("catalog hash too long for IPC".into()))
    );
}

#[test]
fn hash_check_waits_half_a_second() {
    assert!(matches!(hash_check_elapsed(499_999_999), HashCheckStep::Receive));
    assert!(matches!(
        hash_check_elapsed(500_000_000),
        HashCheckStep::Done(Err(SinkError::Timeout))
    ));
    assert!(matches!(hash_check_received(Some(None)), HashCheckStep::Sleep));
    assert!(matches!(hash_check_received(Some(Some(true))), HashCheckStep::Done(Ok(true))));
    assert!(matches!(
        hash_check_received(None),
        HashCheckStep::Done(Err(SinkError::TransportDown))
    ));
}

#[test]
fn manager_errors_become_sink_errors() {
    assert_eq!(
        FaultManagerError::SendError("gone".into()).into_sink_error(),
        SinkError::Other("gone".into())
    );
    assert_eq!(
        FaultManagerError::Timeout.into_sink_error(),
        SinkError::Other("timeout".into())
    );
}
