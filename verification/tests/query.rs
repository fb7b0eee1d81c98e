use std::sync::Arc;

use fault_manager::common::catalog::{FaultCatalog, FaultCatalogBuilder, FaultCatalogConfig};
use fault_manager::common::fault::{
    ComplianceVec, FaultDescriptor, FaultId, FaultRecord, FaultSeverity, FaultType, IpcTimestamp,
    LifecyclePhase, LifecycleStage,
};
use fault_manager::common::fixed_vec::FixedVec;
use fault_manager::common::ids::SourceId;
use fault_manager::common::query_protocol::{
    DfmQueryError, DfmQueryRequest, DfmQueryResponse, IpcFaultListResponse,
    MAX_FAULTS_PER_RESPONSE,
};
use fault_manager::common::types::{to_static_short_string, LongString, MetadataVec};
use fault_manager::dfm_lib::fault_catalog_registry::FaultCatalogRegistry;
use fault_manager::dfm_lib::fault_record_processor::FaultRecordProcessor;
use fault_manager::dfm_lib::operation_cycle::OperationCycleTracker;
use fault_manager::dfm_lib::query_api::{DfmQueryApi, DirectDfmQuery};
use fault_manager::dfm_lib::query_conversion::sovd_fault_to_ipc;
use fault_manager::dfm_lib::query_ipc::{
    delete_all_faults_request, delete_fault_request, get_all_faults_request, get_fault_request,
    ipc_error_to_sovd, listing_outcome, reading_outcome, removal_outcome, response_wait,
    unexpected_response, ResponseWait, DEFAULT_RESPONSE_TIMEOUT_NANOS,
};
use fault_manager::dfm_lib::query_server::{sovd_error_to_ipc, DfmQueryServer};
use fault_manager::dfm_lib::sovd_fault_manager::{Error, SovdFault, SovdFaultManager};
use fault_manager::dfm_lib::sovd_fault_storage::InMemoryStorage;

fn build_catalog(config: FaultCatalogConfig) -> FaultCatalog {
    let json = format!("{config:?}");
    FaultCatalogBuilder::new().cfg_struct(config, json).unwrap().build()
}

fn make_text_registry() -> Arc<FaultCatalogRegistry> {
    let config = FaultCatalogConfig {
        id: "test_entity".into(),
        version: 1,
        faults: vec![
            FaultDescriptor {
                id: FaultId::Text(to_static_short_string("fault_a").unwrap()),
                name: to_static_short_string("Fault A").unwrap(),
                summary: None,
                category: FaultType::Software,
                severity: FaultSeverity::Warn,
                compliance: ComplianceVec::new(),
                reporter_side_debounce: None,
                reporter_side_reset: None,
                manager_side_debounce: None,
                manager_side_reset: None,
            },
            FaultDescriptor {
                id: FaultId::Text(to_static_short_string("fault_b").unwrap()),
                name: to_static_short_string("Fault B").unwrap(),
                summary: None,
                category: FaultType::Hardware,
                severity: FaultSeverity::Error,
                compliance: ComplianceVec::new(),
                reporter_side_debounce: None,
                reporter_side_reset: None,
                manager_side_debounce: None,
                manager_side_reset: None,
            },
        ],
    };
    let catalog = build_catalog(config);
    Arc::new(FaultCatalogRegistry::new(vec![catalog]))
}

fn make_record(fault_id: FaultId, stage: LifecycleStage) -> FaultRecord {
    FaultRecord {
        id: fault_id,
        time: IpcTimestamp::default(),
        source: SourceId {
            entity: to_static_short_string("test").unwrap(),
            ecu: None,
            domain: None,
            sw_component: None,
            instance: None,
        },
        lifecycle_phase: LifecyclePhase::Running,
        lifecycle_stage: stage,
        env_data: MetadataVec::new(),
    }
}

fn make_path(path: &str) -> LongString {
    LongString::from_str_truncated(path).unwrap()
}

/// Queries over a storage where the test of `fault_a` failed.
fn failed_fault_a() -> DirectDfmQuery<InMemoryStorage> {
    let registry = make_text_registry();
    let mut storage = InMemoryStorage::new();
    let mut processor = FaultRecordProcessor::new(Arc::clone(&registry));
    let path = make_path("test_entity");
    let record = make_record(
        FaultId::Text(to_static_short_string("fault_a").unwrap()),
        LifecycleStage::Failed,
    );
    let tracker = OperationCycleTracker::new();
    processor.process_record(&mut storage, &tracker, &path, &record, 0, 1_700_000_000);
    DirectDfmQuery::new(storage, registry)
}

#[test]
fn ipc_fault_list_response_capacity() {
    let mut response = IpcFaultListResponse { faults: FixedVec::new(), total_count: 100 };
    assert_eq!(response.faults.len(), 0);
    assert_eq!(response.total_count, 100);
    let fault = sovd_fault_to_ipc(&SovdFault::default());
    for _ in 0..MAX_FAULTS_PER_RESPONSE {
        assert!(response.faults.push(fault).is_ok());
    }
    assert_eq!(response.faults.len(), MAX_FAULTS_PER_RESPONSE);
    assert!(response.faults.push(fault).is_err());
}

#[test]
fn dfm_query_request_variants_constructible() {
    let _req1 = DfmQueryRequest::GetAllFaults(LongString::from_str_truncated("hvac").unwrap());
    let _req2 = DfmQueryRequest::GetFault(
        LongString::from_str_truncated("hvac").unwrap(),
        to_static_short_string("0x7001").unwrap(),
    );
    let _req3 = DfmQueryRequest::DeleteAllFaults(LongString::from_str_truncated("hvac").unwrap());
    let _req4 = DfmQueryRequest::DeleteFault(
        LongString::from_str_truncated("hvac").unwrap(),
        to_static_short_string("0x7001").unwrap(),
    );
}

#[test]
fn dfm_query_response_variants_constructible() {
    let _ok = DfmQueryResponse::Done;
    let _err_bad = DfmQueryResponse::Error(DfmQueryError::BadArgument);
    let _err_nf = DfmQueryResponse::Error(DfmQueryError::NotFound);
    let _err_stor = DfmQueryResponse::Error(DfmQueryError::StorageError(
        to_static_short_string("disk full").unwrap(),
    ));
}

#[test]
fn direct_query_get_all_faults() {
    let query: &dyn DfmQueryApi = &failed_fault_a();
    let faults = query.get_all_faults("test_entity").unwrap();
    assert_eq!(faults.len(), 2); // 2 descriptors in catalog
}

#[test]
fn direct_query_get_fault() {
    let query = failed_fault_a();
    let (fault, _env) = query.get_fault("test_entity", "fault_a").unwrap();
    assert_eq!(fault.code, "fault_a");
    assert!(fault.typed_status.as_ref().unwrap().test_failed.unwrap());
}

#[test]
fn direct_query_delete_fault() {
    let mut query = failed_fault_a();
    assert!(query.delete_fault("test_entity", "fault_a").is_ok());
}

#[test]
fn direct_query_delete_all_faults() {
    let mut query = failed_fault_a();
    assert!(query.delete_all_faults("test_entity").is_ok());
}

#[test]
fn direct_query_bad_path() {
    let query = DirectDfmQuery::new(InMemoryStorage::new(), make_text_registry());
    assert_eq!(query.get_all_faults("nonexistent"), Err(Error::BadArgument));
}

#[test]
fn trait_is_object_safe() {
    let boxed: Box<dyn DfmQueryApi> =
        Box::new(DirectDfmQuery::new(InMemoryStorage::new(), make_text_registry()));
    // Just verify it compiles and can be called
    let _ = boxed.get_all_faults("test_entity");
}

#[test]
fn remote_queries_agree_with_direct_ones() {
    let query = failed_fault_a();
    let direct = query.get_all_faults("test_entity").unwrap();
    let direct_one = query.get_fault("test_entity", "fault_a").unwrap();
    let server = DfmQueryServer::new(query.inner);
    let mut storage = query.storage;

    let answer = server.handle_request(&mut storage, &get_all_faults_request("test_entity"));
    assert_eq!(listing_outcome(&answer).unwrap().unwrap(), direct);
    let answer =
        server.handle_request(&mut storage, &get_fault_request("test_entity", "fault_a"));
    let (fault, env) = reading_outcome(&answer).unwrap().unwrap();
    assert_eq!(fault, direct_one.0);
    assert_eq!(env.len(), direct_one.1.len());
    assert!(listing_outcome(&answer).is_none());

    let answer =
        server.handle_request(&mut storage, &delete_fault_request("test_entity", "fault_a"));
    assert!(matches!(removal_outcome(&answer), Some(Ok(()))));
    let answer =
        server.handle_request(&mut storage, &delete_fault_request("test_entity", "fault_a"));
    assert!(matches!(removal_outcome(&answer), Some(Err(Error::NotFound))));
    let answer = server.handle_request(&mut storage, &get_all_faults_request("nonexistent"));
    assert!(matches!(listing_outcome(&answer), Some(Err(Error::BadArgument))));
    let answer = server.handle_request(&mut storage, &get_fault_request("test_entity", "other"));
    assert!(matches!(reading_outcome(&answer), Some(Err(Error::NotFound))));
    let answer =
        server.handle_request(&mut storage, &delete_all_faults_request("test_entity"));
    assert!(matches!(removal_outcome(&answer), Some(Ok(()))));
    assert!(reading_outcome(&answer).is_none());
}

#[test]
fn long_listings_are_cut() {
    let faults: Vec<FaultDescriptor> = (0..70)
        .map(|n| FaultDescriptor {
            id: FaultId::Numeric(n),
            name: to_static_short_string("Many").unwrap(),
            summary: None,
            category: FaultType::Software,
            severity: FaultSeverity::Warn,
            compliance: ComplianceVec::new(),
            reporter_side_debounce: None,
            reporter_side_reset: None,
            manager_side_debounce: None,
            manager_side_reset: None,
        })
        .collect();
    let catalog =
        build_catalog(FaultCatalogConfig { id: "many".into(), version: 1, faults });
    let registry = Arc::new(FaultCatalogRegistry::new(vec![catalog]));
    let server = DfmQueryServer::new(SovdFaultManager::new(registry));
    let mut storage = InMemoryStorage::new();
    let answer = server.handle_request(&mut storage, &get_all_faults_request("many"));
    match &answer {
        DfmQueryResponse::FaultList(list) => {
            assert_eq!(list.faults.len(), MAX_FAULTS_PER_RESPONSE);
            assert_eq!(list.total_count, 70);
        },
        other => panic!("unexpected answer: {other:?}"),
    }
    assert_eq!(listing_outcome(&answer).unwrap().unwrap().len(), 64);
}

#[test]
fn storage_errors_cross_the_transport() {
    let sent = sovd_error_to_ipc(Error::Storage("disk full".into()));
    assert_eq!(ipc_error_to_sovd(&sent), Error::Storage("disk full".into()));
    let long = sovd_error_to_ipc(Error::Storage("e".repeat(100)));
    assert_eq!(ipc_error_to_sovd(&long), Error::Storage("e".repeat(64)));
}

#[test]
fn waiting_for_an_answer_ends() {
    assert!(matches!(
        response_wait(Some(DfmQueryResponse::Done), 10, 5),
        ResponseWait::Answered(DfmQueryResponse::Done)
    ));
    assert!(matches!(response_wait(None, 4, 5), ResponseWait::Again));
    match response_wait(None, 5, 5) {
        ResponseWait::TimedOut(e) => assert_eq!(e, Error::Storage("query timeout".into())),
        other => panic!("unexpected wait: {other:?}"),
    }
    assert_eq!(DEFAULT_RESPONSE_TIMEOUT_NANOS, 1_000_000_000);
}

#[test]
fn unexpected_answers_are_shown() {
    assert_eq!(unexpected_response("Ok"), Error::Storage("unexpected response: Ok".into()));
}
