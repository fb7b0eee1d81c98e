use fault_manager::common::catalog::{FaultCatalog, FaultCatalogBuilder, FaultCatalogConfig};
use fault_manager::common::enabling_condition::EnablingConditionStatus;
use fault_manager::common::sink_error::SinkError;
use fault_manager::fault_lib::api::{FaultApi, InitError};
use fault_manager::fault_lib::enabling_condition::EnablingConditionError;
use fault_manager::fault_lib::fault_manager_sink::SinkInitError;
use fault_manager::fault_lib::sink::{NoOpLogHook, RecordingSink};

type Api = FaultApi<RecordingSink, NoOpLogHook>;

fn catalog() -> FaultCatalog {
    let config = FaultCatalogConfig { id: "app".into(), version: 1, faults: vec![] };
    FaultCatalogBuilder::new().cfg_struct(config, "{}".into()).unwrap().build()
}

#[test]
fn try_get_fault_sink_before_init_returns_error() {
    let api = Api::new();
    let result = api.try_get_fault_sink();
    assert!(result.is_err());
    assert_eq!(result.unwrap_err().to_string(), "other: FaultApi not initialized");
}

#[test]
fn try_get_fault_catalog_before_init_returns_none() {
    assert!(Api::new().try_get_fault_catalog().is_none());
}

#[test]
fn try_get_ec_manager_before_init_returns_none() {
    assert!(Api::new().try_get_ec_manager().is_none());
}

#[test]
fn try_get_log_hook_returns_none_when_unset() {
    assert!(Api::new().try_get_log_hook().is_none());
}

#[test]
fn init_error_already_initialized_display() {
    let err = InitError::AlreadyInitialized;
    assert_eq!(err.to_string(), "FaultApi already initialized");
}

#[test]
fn init_error_catalog_verification_display() {
    let err = InitError::CatalogVerification(SinkError::TransportDown);
    let msg = err.to_string();
    assert!(msg.contains("catalog hash verification failed"));
}

#[test]
fn get_enabling_condition_before_init_returns_error() {
    let result = Api::new().get_enabling_condition("test_ec");
    assert!(matches!(result, Err(EnablingConditionError::NotInitialized)));
}

#[test]
fn get_enabling_condition_status_before_init_returns_none() {
    assert!(Api::new().get_enabling_condition_status("anything").is_none());
}

#[test]
fn api_is_initialised_once() {
    let mut api = Api::default();
    assert!(api.check_uninitialized().is_ok());
    api.try_new(catalog(), Ok((RecordingSink::new(), RecordingSink::new())), Ok(true)).unwrap();
    assert!(matches!(api.check_uninitialized(), Err(InitError::AlreadyInitialized)));
    assert_eq!(api.try_get_fault_catalog().unwrap().len(), 0);
    assert_eq!(api.try_get_fault_sink().unwrap().count(), 0);
    assert_eq!(api.get_fault_catalog().len(), 0);
    assert_eq!(api.get_fault_sink().count(), 0);
    let again =
        api.try_new(catalog(), Ok((RecordingSink::new(), RecordingSink::new())), Ok(true));
    assert!(matches!(again, Err(InitError::AlreadyInitialized)));
    api.release();
    assert_eq!(
        api.try_get_fault_sink().unwrap_err().to_string(),
        "other: FaultApi has been dropped"
    );
    assert!(api.try_get_fault_catalog().is_none());
    assert!(matches!(api.check_uninitialized(), Err(InitError::AlreadyInitialized)));
}

#[test]
fn failed_initialisation_can_be_repeated() {
    let mut api = Api::new();
    let sinks = || Ok((RecordingSink::new(), RecordingSink::new()));
    let error =
        api.try_new(catalog(), Err(SinkInitError::ThreadSpawn("no".into())), Ok(true)).unwrap_err();
    assert!(matches!(error, InitError::SinkInit(SinkInitError::ThreadSpawn(_))));
    let error = api.try_new(catalog(), sinks(), Err(SinkError::Timeout)).unwrap_err();
    assert!(matches!(error, InitError::CatalogVerification(SinkError::Timeout)));
    let error = api.try_new(catalog(), sinks(), Ok(false)).unwrap_err();
    assert_eq!(
        error.to_string(),
        "catalog hash verification failed: other: catalog hash mismatch with DFM"
    );
    assert!(api.try_new(catalog(), sinks(), Ok(true)).is_ok());
}

#[test]
fn log_hook_is_set_once() {
    let mut api = Api::new();
    assert!(api.set_log_hook(NoOpLogHook).is_ok());
    assert!(api.try_get_log_hook().is_some());
    assert!(api.set_log_hook(NoOpLogHook).is_err());
}

#[test]
fn api_reaches_enabling_conditions() {
    let mut api = Api::new();
    api.try_new(catalog(), Ok((RecordingSink::new(), RecordingSink::new())), Ok(true)).unwrap();
    let monitor = api.create_fault_monitor(vec!["engine.running".to_string()]).unwrap();
    assert_eq!(monitor.monitor_id, 0);
    let condition = api.get_enabling_condition("engine.running").unwrap();
    assert_eq!(condition.id().to_string(), "engine.running");
    assert_eq!(
        api.get_enabling_condition_status("engine.running"),
        Some(EnablingConditionStatus::Inactive)
    );
    assert_eq!(
        api.try_get_ec_manager().unwrap().watchers_of("engine.running"),
        vec![monitor.monitor_id]
    );
    assert!(matches!(
        Api::new().create_fault_monitor(vec![]),
        Err(EnablingConditionError::NotInitialized)
    ));
}

#[test]
fn conditions_outlive_the_api() {
    let mut api = Api::new();
    assert!(api.release().is_none());
    api.try_new(catalog(), Ok((RecordingSink::new(), RecordingSink::new())), Ok(true)).unwrap();
    assert_eq!(api.try_get_ec_manager().unwrap().next_monitor_id, 0);
    let monitor = api.create_fault_monitor(vec!["engine.running".to_string()]).unwrap();
    let condition = api.get_enabling_condition("engine.running").unwrap();
    let mut left = api.release().unwrap();
    assert!(left.get_sink().is_none());
    assert_eq!(left.next_monitor_id, 1);
    let (told, sent) = condition.report_status(&mut left, EnablingConditionStatus::Active);
    assert_eq!(told, vec![monitor.monitor_id]);
    assert_eq!(sent, Ok(()));
    assert_eq!(left.get_status("engine.running"), Some(EnablingConditionStatus::Active));
    assert!(api.get_enabling_condition_status("engine.running").is_none());
    assert!(matches!(
        api.get_enabling_condition("brake.pressed"),
        Err(EnablingConditionError::NotInitialized)
    ));
    assert!(api.release().is_none());
}
