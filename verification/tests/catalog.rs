use std::time::Duration;

use fault_manager::common::catalog::{
    CatalogBuildError, CatalogSource, FaultCatalog, FaultCatalogBuilder, FaultCatalogConfig,
};
use fault_manager::common::debounce::{DebounceMode, IpcDuration};
use fault_manager::common::fault::{
    ComplianceTag, ComplianceVec, FaultDescriptor, FaultId, FaultSeverity, FaultType,
};
use fault_manager::common::types::{to_static_long_string, to_static_short_string};

fn ipc(d: Duration) -> IpcDuration {
    IpcDuration::from_nanos(d.as_nanos())
}

fn build_catalog(config: FaultCatalogConfig) -> FaultCatalog {
    let json = format!("{config:?}");
    FaultCatalogBuilder::new().cfg_struct(config, json).unwrap().build()
}

fn source_of(config: &FaultCatalogConfig) -> CatalogSource {
    CatalogSource { config: config.clone(), canonical_json: format!("{config:?}") }
}

/// Reads a catalog without faults from JSON.
fn decode(json: &str) -> Result<CatalogSource, CatalogBuildError> {
    let invalid = |message: &str| CatalogBuildError::InvalidJson(message.to_string());
    let value: serde_json::Value =
        serde_json::from_str(json).map_err(|e| invalid(&e.to_string()))?;
    let id = value["id"].as_str().ok_or_else(|| invalid("missing field `id`"))?;
    let version = value["version"].as_u64().ok_or_else(|| invalid("missing field `version`"))?;
    value["faults"].as_array().ok_or_else(|| invalid("missing field `faults`"))?;
    let config = FaultCatalogConfig { id: id.to_string(), version, faults: vec![] };
    Ok(CatalogSource { config, canonical_json: value.to_string() })
}

fn make_descriptor(id: FaultId) -> FaultDescriptor {
    FaultDescriptor {
        id,
        name: to_static_short_string("Test").unwrap(),
        summary: None,
        category: FaultType::Software,
        severity: FaultSeverity::Warn,
        compliance: ComplianceVec::new(),
        reporter_side_debounce: None,
        reporter_side_reset: None,
        manager_side_debounce: None,
        manager_side_reset: None,
    }
}

fn create_config() -> FaultCatalogConfig {
    FaultCatalogConfig {
        id: "ivi".into(),
        version: 1,
        faults: create_descriptors(),
    }
}

fn create_descriptors() -> Vec<FaultDescriptor> {

    vec![
        FaultDescriptor {
            id: FaultId::Text(to_static_short_string("d1").unwrap()),

            name: to_static_short_string("Descriptor 1").unwrap(),
            summary: None,

            category: FaultType::Software,
            severity: FaultSeverity::Debug,
            compliance: ComplianceVec::try_from(
                &[
                    ComplianceTag::EmissionRelevant,
                    ComplianceTag::SafetyCritical,
                ][..],
            )
            .unwrap(),

            reporter_side_debounce: Some(DebounceMode::EdgeWithCooldown {
                cooldown: ipc(Duration::from_millis(100u64)),
            }),
            reporter_side_reset: None,
            manager_side_debounce: None,
            manager_side_reset: None,
        },
        FaultDescriptor {
            id: FaultId::Text(to_static_short_string("d2").unwrap()),

            name: to_static_short_string("Descriptor 2").unwrap(),
            summary: Some(to_static_long_string("Human-readable summary").unwrap()),

            category: FaultType::Configuration,
            severity: FaultSeverity::Warn,
            compliance: ComplianceVec::try_from(
                &[
                    ComplianceTag::SecurityRelevant,
                    ComplianceTag::SafetyCritical,
                ][..],
            )
            .unwrap(),

            reporter_side_debounce: None,
            reporter_side_reset: None,
            manager_side_debounce: Some(DebounceMode::EdgeWithCooldown {
                cooldown: ipc(Duration::from_millis(100u64)),
            }),
            manager_side_reset: None,
        },
    ]
}

#[test]
fn duplicate_fault_id_returns_error() {
    let config = FaultCatalogConfig {
        id: "test".into(),
        version: 1,
        faults: vec![
            make_descriptor(FaultId::Numeric(42)),
            make_descriptor(FaultId::Numeric(42)),
        ],
    };
    let result = FaultCatalogBuilder::new()
        .cfg_struct(config, "{}".into())
        .unwrap()
        .try_build();
    assert!(result.is_err());
    assert!(matches!(
        result.unwrap_err(),
        CatalogBuildError::DuplicateFaultId(_)
    ));
}

#[test]
fn unique_fault_ids_build_successfully() {
    let config = FaultCatalogConfig {
        id: "test".into(),
        version: 1,
        faults: vec![
            make_descriptor(FaultId::Numeric(1)),
            make_descriptor(FaultId::Numeric(2)),
            make_descriptor(FaultId::Text(to_static_short_string("fault_a").unwrap())),
        ],
    };
    let result = FaultCatalogBuilder::new()
        .cfg_struct(config, "{}".into())
        .unwrap()
        .try_build();
    assert!(result.is_ok());
    assert_eq!(result.unwrap().len(), 3);
}

#[test]
fn numeric_and_text_with_same_value_are_not_duplicates() {
    let config = FaultCatalogConfig {
        id: "test".into(),
        version: 1,
        faults: vec![
            make_descriptor(FaultId::Numeric(1)),
            make_descriptor(FaultId::Text(to_static_short_string("1").unwrap())),
        ],
    };
    let result = FaultCatalogBuilder::new()
        .cfg_struct(config, "{}".into())
        .unwrap()
        .try_build();
    assert!(result.is_ok());
    assert_eq!(result.unwrap().len(), 2);
}

#[test]
fn from_config() {
    let cfg = create_config();

    let catalog = build_catalog(cfg.clone());

    let d1 = catalog
        .descriptor(&FaultId::Text(to_static_short_string("d1").unwrap()))
        .expect("get_descriptor failed");
    let d2 = catalog
        .descriptor(&FaultId::Text(to_static_short_string("d2").unwrap()))
        .expect("get_descriptor failed");

    assert_eq!(*d1, cfg.faults[0]);
    assert_eq!(*d2, cfg.faults[1]);
}

#[test]
fn empty_config() {
    let cfg = FaultCatalogConfig {
        id: "".into(),
        version: 7,
        faults: Vec::new(),
    };

    let catalog = build_catalog(cfg.clone());
    let d1 = catalog.descriptor(&FaultId::Text(to_static_short_string("d1").unwrap()));
    assert_eq!(d1, Option::None);
}

#[test]
fn from_json_string() {
    let cfg = create_config();

    let fault_catalog =
        FaultCatalogBuilder::new().json_string(Ok(source_of(&cfg))).unwrap().build();
    let d1 = fault_catalog
        .descriptor(&FaultId::Text(to_static_short_string("d1").unwrap()))
        .expect("get_descriptor failed");
    let d2 = fault_catalog
        .descriptor(&FaultId::Text(to_static_short_string("d2").unwrap()))
        .expect("get_descriptor failed");

    assert_eq!(*d1, cfg.faults[0]);
    assert_eq!(*d2, cfg.faults[1]);
}

#[test]
fn from_json_file() {
    let cfg = create_config();

    let fault_catalog =
        FaultCatalogBuilder::new().json_file(Ok(source_of(&cfg))).unwrap().build();
    let d1 = fault_catalog
        .descriptor(&FaultId::Text(to_static_short_string("d1").unwrap()))
        .expect("get_descriptor failed");
    let d2 = fault_catalog
        .descriptor(&FaultId::Text(to_static_short_string("d2").unwrap()))
        .expect("get_descriptor failed");

    assert_eq!(*d1, cfg.faults[0]);
    assert_eq!(*d2, cfg.faults[1]);
}

#[test]
fn hash_sum() {
    let cfg = create_config();
    let catalog_from_file =
        FaultCatalogBuilder::new().json_file(Ok(source_of(&cfg))).unwrap().build();
    let catalog_from_cfg = build_catalog(cfg.clone());
    let catalog_from_json =
        FaultCatalogBuilder::new().json_string(Ok(source_of(&cfg))).unwrap().build();

    assert_eq!(catalog_from_cfg.config_hash(), catalog_from_file.config_hash());
    assert_eq!(catalog_from_cfg.config_hash(), catalog_from_json.config_hash());
}

#[test]
fn hash_is_sha256_of_the_canonical_json() {
    let config = FaultCatalogConfig { id: "x".into(), version: 1, faults: vec![] };
    let catalog = FaultCatalogBuilder::new().cfg_struct(config, "abc".into()).unwrap().build();
    let hex: String = catalog.config_hash().iter().map(|b| format!("{b:02x}")).collect();
    assert_eq!(hex, "ba7816bf8f01cfea414140de5dae2223b00361a396177a9cb410ff61f20015ad");
}

#[test]
fn catalog_builder_errors_on_invalid_json() {
    let result =
        FaultCatalogBuilder::new().json_string(decode("{ invalid json }")).unwrap().try_build();
    assert!(
        matches!(result, Err(CatalogBuildError::InvalidJson(_))),
        "Should return InvalidJson error on invalid JSON input, got: {result:?}"
    );
}

#[test]
fn catalog_builder_errors_on_missing_fields() {
    let result = FaultCatalogBuilder::new()
        .json_string(decode(r#"{"id": "test"}"#)) // missing version, faults
        .unwrap()
        .try_build();
    assert!(result.is_err(), "Should return error on missing required fields");
}

#[test]
fn catalog_try_build_returns_invalid_json() {
    let result =
        FaultCatalogBuilder::new().json_string(decode("not valid json")).unwrap().try_build();
    assert!(
        matches!(result, Err(CatalogBuildError::InvalidJson(_))),
        "Should return InvalidJson for malformed JSON"
    );
}

#[test]
fn catalog_try_build_returns_io_error_for_missing_file() {
    let missing = "No such file or directory (os error 2)";
    let result = FaultCatalogBuilder::new()
        .json_file(Err(CatalogBuildError::Io(missing.into())))
        .unwrap()
        .try_build();
    assert!(
        matches!(result, Err(CatalogBuildError::Io(_))),
        "Should return Io error for missing file"
    );
}

#[test]
fn builder_without_source_builds_nothing() {
    let error = FaultCatalogBuilder::new().try_build().unwrap_err();
    assert!(matches!(error, CatalogBuildError::MissingConfig));
    let error = FaultCatalogBuilder::default().try_build().unwrap_err();
    assert!(matches!(error, CatalogBuildError::MissingConfig));
}

#[test]
fn first_repeated_fault_is_reported() {
    let faults = vec![
        make_descriptor(FaultId::Numeric(1)),
        make_descriptor(FaultId::Numeric(2)),
        make_descriptor(FaultId::Numeric(2)),
        make_descriptor(FaultId::Numeric(1)),
    ];
    let config = FaultCatalogConfig { id: "test".into(), version: 1, faults };
    let error =
        FaultCatalogBuilder::new().cfg_struct(config, "{}".into()).unwrap().try_build().unwrap_err();
    assert!(matches!(error, CatalogBuildError::DuplicateFaultId(FaultId::Numeric(2))));
    assert_eq!(error.to_string(), "duplicate FaultId: Numeric(2)");
}

#[test]
fn descriptors_are_listed_once_each() {
    let catalog = build_catalog(create_config());
    let mut names: Vec<String> =
        catalog.descriptors().iter().map(|d| d.name.to_string()).collect();
    names.sort();
    assert_eq!(names, vec!["Descriptor 1".to_string(), "Descriptor 2".to_string()]);
    assert_eq!(catalog.len(), 2);
    assert!(!catalog.is_empty());
    assert_eq!(catalog.id().to_string(), "ivi");
}

#[test]
fn build_errors_have_messages() {
    assert_eq!(
        CatalogBuildError::AlreadyConfigured.to_string(),
        "builder already configured"
    );
}
