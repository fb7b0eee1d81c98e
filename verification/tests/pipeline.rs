use std::sync::Arc;

use fault_manager::common::catalog::{FaultCatalog, FaultCatalogBuilder, FaultCatalogConfig};
use fault_manager::common::fault::{
    ComplianceVec, FaultDescriptor, FaultId, FaultRecord, FaultSeverity, FaultType, IpcTimestamp,
    LifecyclePhase, LifecycleStage,
};
use fault_manager::common::ids::SourceId;
use fault_manager::common::path_map::PathMap;
use fault_manager::common::types::{to_static_short_string, MetadataVec};
use fault_manager::dfm_lib::diagnostic_fault_manager::DiagnosticFaultManager;
use fault_manager::dfm_lib::fault_catalog_registry::FaultCatalogRegistry;
use fault_manager::dfm_lib::fault_lib_communicator::{handle_event, DfmLoopAction};
use fault_manager::dfm_lib::kvs::KvsValue;
use fault_manager::dfm_lib::sovd_fault_storage::{
    InMemoryStorage, KvsSovdFaultStateStorage, SovdFaultState, SovdFaultStateStorage,
};
use fault_manager::fault_lib::fault_manager_sink::{fault_event, hash_event};

fn descriptor(id: FaultId) -> FaultDescriptor {
    FaultDescriptor {
        id,
        name: to_static_short_string("Test fault").unwrap(),
        summary: None,
        category: FaultType::Software,
        severity: FaultSeverity::Warn,
        compliance: ComplianceVec::new(),
        reporter_side_debounce: None,
        reporter_side_reset: None,
        manager_side_debounce: None,
        manager_side_reset: None,
    }
}

fn catalog(id: &str, json: &str) -> FaultCatalog {
    let faults = vec![descriptor(FaultId::Numeric(0x7001)), descriptor(text("hvac.blower"))];
    let config = FaultCatalogConfig { id: id.to_string(), version: 1, faults };
    FaultCatalogBuilder::new().cfg_struct(config, json.to_string()).unwrap().build()
}

fn text(s: &str) -> FaultId {
    FaultId::Text(to_static_short_string(s).unwrap())
}

fn failed(id: FaultId) -> FaultRecord {
    FaultRecord {
        id,
        time: IpcTimestamp::default(),
        source: SourceId {
            entity: to_static_short_string("app").unwrap(),
            ecu: None,
            domain: None,
            sw_component: None,
            instance: None,
        },
        lifecycle_phase: LifecyclePhase::Running,
        lifecycle_stage: LifecycleStage::Failed,
        env_data: MetadataVec::new(),
    }
}

fn manager() -> DiagnosticFaultManager<InMemoryStorage> {
    let catalogs = vec![catalog("hvac", "{\"v\":1}"), catalog("ivi/main", "{\"v\":2}")];
    let registry = Arc::new(FaultCatalogRegistry::new(catalogs));
    DiagnosticFaultManager::new(InMemoryStorage::new(), registry)
}

#[test]
fn reports_are_shown_to_tools() {
    let mut dfm = manager();
    let event = fault_event("ivi/main", failed(text("hvac.blower"))).unwrap();
    assert!(matches!(handle_event(&mut dfm, &event, 0, 1_700_000_000), DfmLoopAction::Receive));

    let queries = dfm.create_sovd_fault_manager();
    let all = queries.get_all_faults(&dfm.storage, "ivi/main").unwrap();
    let status = all[1].typed_status.as_ref().unwrap();
    assert_eq!(all[1].code, "hvac.blower");
    assert_eq!((status.test_failed, status.confirmed_dtc), (Some(true), Some(true)));
    let (one, _) = queries.get_fault(&dfm.storage, "ivi/main", &all[1].code).unwrap();
    assert_eq!(one, all[1]);
    let (clear, _) = queries.get_fault(&dfm.storage, "ivi/main", &all[0].code).unwrap();
    assert_eq!(clear, all[0]);
    assert_eq!(clear.typed_status.unwrap().test_failed, Some(false));
}

#[test]
fn entities_do_not_see_each_other() {
    let mut dfm = manager();
    let event = fault_event("hvac", failed(FaultId::Numeric(0x7001))).unwrap();
    handle_event(&mut dfm, &event, 0, 1_700_000_000);
    assert!(dfm.storage.get("hvac", &FaultId::Numeric(0x7001)).unwrap().is_some());
    assert!(dfm.storage.get("ivi/main", &FaultId::Numeric(0x7001)).unwrap().is_none());
}

#[test]
fn catalogs_are_compared_by_name_and_hash() {
    let mut dfm = manager();
    let mut answer = |catalog: &FaultCatalog| {
        match handle_event(&mut dfm, &hash_event(catalog).unwrap(), 0, 0) {
            DfmLoopAction::PublishHashResponse(matching) => matching,
            other => panic!("unexpected action: {other:?}"),
        }
    };
    assert!(answer(&catalog("hvac", "{\"v\":1}")));
    assert!(!answer(&catalog("hvac", "{\"v\":2}")));
    assert!(!answer(&catalog("seat", "{\"v\":1}")));
}

#[test]
fn states_survive_a_restart() {
    let id = text("hvac.blower");
    let mut first = KvsSovdFaultStateStorage::new(PathMap::new());
    let state = SovdFaultState { confirmed_dtc: true, occurrence_counter: 3, ..Default::default() };
    first.put("hvac", &id, state.clone()).unwrap();

    let mut contents: PathMap<KvsValue> = PathMap::new();
    let stored = first.contents().path("hvac").unwrap();
    for i in 0..stored.len() {
        let (key, value) = stored.at(i);
        contents.insert("hvac", key.clone(), copy(value));
    }
    let second = KvsSovdFaultStateStorage::new(contents);
    assert_eq!(second.get("hvac", &id).unwrap(), Some(state));
}

fn copy(value: &KvsValue) -> KvsValue {
    match value {
        KvsValue::Boolean(b) => KvsValue::Boolean(*b),
        KvsValue::I64(n) => KvsValue::I64(*n),
        KvsValue::Text(t) => KvsValue::Text(t.clone()),
        KvsValue::Object(values) => {
            let mut out = fault_manager::common::assoc_map::AssocMap::new();
            for i in 0..values.len() {
                let (key, inner) = values.at(i);
                out.insert(key.clone(), copy(inner));
            }
            KvsValue::Object(out)
        },
        KvsValue::Unsupported => KvsValue::Unsupported,
    }
}
