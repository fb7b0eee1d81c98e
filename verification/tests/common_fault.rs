use std::collections::HashSet;

use fault_manager::common::enabling_condition::{
    EnablingConditionNotification, EnablingConditionStatus,
};
use fault_manager::common::fault::{
    ComplianceTag, FaultId, FaultSeverity, FaultType, IpcTimestamp, IpcTimestampError,
    LifecycleStage,
};
use fault_manager::common::types::{to_static_short_string, ShortString};

#[test]
fn status_copy_semantics() {
    let a = EnablingConditionStatus::Active;
    let b = a;
    assert_eq!(a, b);
}

#[test]
fn status_all_variants() {
    let statuses = [EnablingConditionStatus::Active, EnablingConditionStatus::Inactive];
    assert_eq!(statuses.len(), 2);
}

#[test]
fn status_equality() {
    assert_eq!(EnablingConditionStatus::Active, EnablingConditionStatus::Active);
    assert_ne!(EnablingConditionStatus::Active, EnablingConditionStatus::Inactive);
}

#[test]
fn notification_construction() {
    let id = ShortString::from_bytes("vehicle.speed".as_bytes()).unwrap();
    let ntf = EnablingConditionNotification { id, status: EnablingConditionStatus::Active };
    assert_eq!(ntf.id.to_string(), "vehicle.speed");
    assert_eq!(ntf.status, EnablingConditionStatus::Active);
}

#[test]
fn notification_clone() {
    let id = ShortString::from_bytes("engine.running".as_bytes()).unwrap();
    let ntf = EnablingConditionNotification { id, status: EnablingConditionStatus::Inactive };
    let cloned = ntf.clone();
    assert_eq!(cloned.status, EnablingConditionStatus::Inactive);
}

#[test]
fn fault_id_numeric_construction() {
    let id = FaultId::Numeric(42);
    if let FaultId::Numeric(n) = id {
        assert_eq!(n, 42);
    } else {
        panic!("Expected Numeric variant");
    }
}

#[test]
fn fault_id_text_construction() {
    let id = FaultId::Text(to_static_short_string("test_fault").unwrap());
    if let FaultId::Text(ref s) = id {
        assert_eq!(s.to_string(), "test_fault");
    } else {
        panic!("Expected Text variant");
    }
}

#[test]
fn fault_id_uuid_construction() {
    let uuid = [1u8, 2, 3, 4, 5, 6, 7, 8, 9, 10, 11, 12, 13, 14, 15, 16];
    let id = FaultId::Uuid(uuid);
    if let FaultId::Uuid(u) = id {
        assert_eq!(u, uuid);
    } else {
        panic!("Expected Uuid variant");
    }
}

#[test]
fn fault_id_equality() {
    let a = FaultId::Numeric(1);
    let b = FaultId::Numeric(1);
    let c = FaultId::Numeric(2);
    assert_eq!(a, b);
    assert_ne!(a, c);
}

#[test]
fn fault_id_ordering() {
    let a = FaultId::Numeric(1);
    let b = FaultId::Numeric(2);
    assert!(a < b);
}

#[test]
fn fault_id_hash_works() {
    let mut set = HashSet::new();
    set.insert(FaultId::Numeric(1));
    set.insert(FaultId::Numeric(2));
    set.insert(FaultId::Numeric(1)); // Duplicate
    assert_eq!(set.len(), 2);
}

#[test]
fn fault_id_clone() {
    let a = FaultId::Numeric(42);
    let b = a.clone();
    assert_eq!(a, b);
}

#[test]
fn fault_severity_copy() {
    let a = FaultSeverity::Error;
    let b = a;
    assert_eq!(a, b);
}

#[test]
fn fault_severity_all_variants() {
    let severities = [
        FaultSeverity::Trace,
        FaultSeverity::Debug,
        FaultSeverity::Info,
        FaultSeverity::Warn,
        FaultSeverity::Error,
        FaultSeverity::Fatal,
    ];
    assert_eq!(severities.len(), 6);
}

#[test]
fn fault_severity_levels_ascend() {
    let levels: Vec<u32> = [
        FaultSeverity::Trace,
        FaultSeverity::Debug,
        FaultSeverity::Info,
        FaultSeverity::Warn,
        FaultSeverity::Error,
        FaultSeverity::Fatal,
    ]
    .iter()
    .map(|s| s.as_u32())
    .collect();
    assert!(levels.windows(2).all(|w| w[0] < w[1]));
}

#[test]
fn lifecycle_stage_copy() {
    let a = LifecycleStage::Failed;
    let b = a;
    assert_eq!(a, b);
}

#[test]
fn lifecycle_stage_all_variants() {
    let stages = [
        LifecycleStage::NotTested,
        LifecycleStage::PreFailed,
        LifecycleStage::Failed,
        LifecycleStage::PrePassed,
        LifecycleStage::Passed,
    ];
    assert_eq!(stages.len(), 5);
}

#[test]
fn lifecycle_self_transitions_are_valid() {
    for stage in [
        LifecycleStage::NotTested,
        LifecycleStage::PreFailed,
        LifecycleStage::Failed,
        LifecycleStage::PrePassed,
        LifecycleStage::Passed,
    ] {
        assert!(stage.is_valid_transition(&stage), "{stage:?} -> {stage:?} should be valid");
    }
}

#[test]
fn lifecycle_valid_transitions() {
    let not_tested = LifecycleStage::NotTested;
    let pre_failed = LifecycleStage::PreFailed;
    let failed = LifecycleStage::Failed;
    let pre_passed = LifecycleStage::PrePassed;
    let passed = LifecycleStage::Passed;
    let valid = [
        (not_tested, pre_failed),
        (not_tested, pre_passed),
        (not_tested, failed),
        (not_tested, passed),
        (pre_failed, failed),
        (pre_failed, pre_passed),
        (pre_failed, not_tested),
        (failed, pre_passed),
        (failed, passed),
        (failed, not_tested),
        (pre_passed, passed),
        (pre_passed, pre_failed),
        (pre_passed, not_tested),
        (passed, pre_failed),
        (passed, failed),
        (passed, not_tested),
    ];
    for (from, to) in valid {
        assert!(from.is_valid_transition(&to), "{from:?} -> {to:?} should be valid");
    }
}

#[test]
fn lifecycle_invalid_transitions() {
    let invalid = [
        (LifecycleStage::PreFailed, LifecycleStage::Passed),
        (LifecycleStage::Failed, LifecycleStage::PreFailed),
        (LifecycleStage::PrePassed, LifecycleStage::Failed),
        (LifecycleStage::Passed, LifecycleStage::PrePassed),
    ];
    for (from, to) in invalid {
        assert!(!from.is_valid_transition(&to), "{from:?} -> {to:?} should be invalid");
    }
}

#[test]
fn ipc_timestamp_default_is_zero() {
    let ts = IpcTimestamp::default();
    assert_eq!(ts.seconds_since_epoch, 0);
    assert_eq!(ts.nanoseconds, 0);
}

#[test]
fn ipc_timestamp_construction() {
    let ts = IpcTimestamp { seconds_since_epoch: 1_705_312_200, nanoseconds: 123_456_789 };
    assert_eq!(ts.seconds_since_epoch, 1_705_312_200);
    assert_eq!(ts.nanoseconds, 123_456_789);
}

#[test]
fn ipc_timestamp_new_zero_nanos_ok() {
    let ts = IpcTimestamp::new(0, 0);
    assert!(ts.is_ok());
    let ts = ts.unwrap();
    assert_eq!(ts.seconds_since_epoch, 0);
    assert_eq!(ts.nanoseconds, 0);
}

#[test]
fn ipc_timestamp_new_max_nanos_ok() {
    let ts = IpcTimestamp::new(42, 999_999_999);
    assert!(ts.is_ok());
    let ts = ts.unwrap();
    assert_eq!(ts.seconds_since_epoch, 42);
    assert_eq!(ts.nanoseconds, 999_999_999);
}

#[test]
fn ipc_timestamp_new_nanos_overflow_err() {
    let ts = IpcTimestamp::new(0, 1_000_000_000);
    assert!(ts.is_err());
    assert_eq!(ts.unwrap_err(), IpcTimestampError::NanosecondsOutOfRange(1_000_000_000));
}

#[test]
fn ipc_timestamp_new_max_u32_nanos_err() {
    let ts = IpcTimestamp::new(0, u32::MAX);
    assert!(ts.is_err());
}

#[test]
fn ipc_timestamp_error_display() {
    let err = IpcTimestampError::NanosecondsOutOfRange(1_000_000_000);
    let msg = err.to_string();
    assert!(msg.contains("nanoseconds out of range"));
    assert!(msg.contains("1000000000"));
}

#[test]
fn compliance_tag_all_variants() {
    let tags = [
        ComplianceTag::EmissionRelevant,
        ComplianceTag::SafetyCritical,
        ComplianceTag::SecurityRelevant,
        ComplianceTag::LegalHold,
    ];
    assert_eq!(tags.len(), 4);
}

#[test]
fn fault_type_custom() {
    let custom = FaultType::Custom(to_static_short_string("domain_specific").unwrap());
    if let FaultType::Custom(ref s) = custom {
        assert_eq!(s.to_string(), "domain_specific");
    } else {
        panic!("Expected Custom variant");
    }
}

#[test]
fn fault_id_is_shown_in_messages() {
    assert_eq!(FaultId::Numeric(42).to_debug_string(), "Numeric(42)");
    let text = FaultId::Text(to_static_short_string("d1").unwrap());
    assert_eq!(text.to_debug_string(), "Text(StaticString<64> { len: 2, data: \"d1\" })");
    let uuid = FaultId::Uuid([0, 1, 2, 3, 4, 5, 6, 7, 8, 9, 10, 11, 12, 13, 14, 255]);
    assert_eq!(
        uuid.to_debug_string(),
        "Uuid([0, 1, 2, 3, 4, 5, 6, 7, 8, 9, 10, 11, 12, 13, 14, 255])"
    );
}
