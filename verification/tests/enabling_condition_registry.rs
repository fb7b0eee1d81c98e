use fault_manager::common::enabling_condition::EnablingConditionStatus;
use fault_manager::dfm_lib::enabling_condition_registry::EnablingConditionRegistry;

#[test]
fn new_registry_is_empty() {
    let reg = EnablingConditionRegistry::new();
    assert!(reg.is_empty());
    assert_eq!(reg.len(), 0);
}

#[test]
fn register_creates_inactive_condition() {
    let mut reg = EnablingConditionRegistry::new();
    let status = reg.register("vehicle.speed.valid");
    assert_eq!(status, EnablingConditionStatus::Inactive);
    assert_eq!(reg.len(), 1);
    assert_eq!(
        reg.get_status("vehicle.speed.valid"),
        Some(EnablingConditionStatus::Inactive)
    );
}

#[test]
fn register_duplicate_returns_current_status() {
    let mut reg = EnablingConditionRegistry::new();
    reg.register("engine.running");
    reg.update_status("engine.running", EnablingConditionStatus::Active);
    let status = reg.register("engine.running");
    assert_eq!(status, EnablingConditionStatus::Active);
    assert_eq!(reg.len(), 1);
}

#[test]
fn update_status_returns_new_on_change() {
    let mut reg = EnablingConditionRegistry::new();
    reg.register("engine.running");
    let result = reg.update_status("engine.running", EnablingConditionStatus::Active);
    assert_eq!(result, Some(EnablingConditionStatus::Active));
}

#[test]
fn update_status_returns_none_on_no_change() {
    let mut reg = EnablingConditionRegistry::new();
    reg.register("engine.running");
    let result = reg.update_status("engine.running", EnablingConditionStatus::Inactive);
    assert_eq!(result, None);
}

#[test]
fn update_status_auto_registers_unknown_condition() {
    let mut reg = EnablingConditionRegistry::new();
    let result = reg.update_status("new.condition", EnablingConditionStatus::Active);
    assert_eq!(result, Some(EnablingConditionStatus::Active));
    assert_eq!(reg.len(), 1);
}

#[test]
fn get_status_returns_none_for_unknown() {
    let reg = EnablingConditionRegistry::new();
    assert_eq!(reg.get_status("nonexistent"), None);
}

#[test]
fn all_conditions_returns_full_map() {
    let mut reg = EnablingConditionRegistry::new();
    reg.register("a");
    reg.register("b");
    reg.update_status("a", EnablingConditionStatus::Active);

    let all = reg.all_conditions();
    assert_eq!(all.len(), 2);
    assert_eq!(all.get_str("a"), Some(&EnablingConditionStatus::Active));
    assert_eq!(all.get_str("b"), Some(&EnablingConditionStatus::Inactive));
}

#[test]
fn default_creates_empty_registry() {
    let reg = EnablingConditionRegistry::default();
    assert!(reg.is_empty());
}
