use fault_manager::common::fault::IpcTimestamp;
use fault_manager::dfm_lib::operation_cycle::{
    CycleEventType, CycleSource, ManualCycleProvider, OperationCycleEvent, OperationCycleProvider,
    OperationCycleTracker,
};

fn at() -> IpcTimestamp {
    IpcTimestamp::new(1_700_000_000, 0).unwrap()
}

fn make_event(cycle_id: &str, event_type: CycleEventType) -> OperationCycleEvent {
    OperationCycleEvent {
        cycle_id: cycle_id.to_string(),
        event_type,
        timestamp: at(),
        source: CycleSource::Ecu,
    }
}

#[test]
fn new_tracker_returns_zero() {
    let tracker = OperationCycleTracker::new();
    assert_eq!(tracker.get("power"), 0);
    assert_eq!(tracker.get("ignition"), 0);
}

#[test]
fn increment_increases_count() {
    let mut tracker = OperationCycleTracker::new();
    assert_eq!(tracker.increment("power"), 1);
    assert_eq!(tracker.increment("power"), 2);
    assert_eq!(tracker.increment("power"), 3);
    assert_eq!(tracker.get("power"), 3);
}

#[test]
fn independent_cycle_refs() {
    let mut tracker = OperationCycleTracker::new();
    tracker.increment("power");
    tracker.increment("power");
    tracker.increment("ignition");

    assert_eq!(tracker.get("power"), 2);
    assert_eq!(tracker.get("ignition"), 1);
    assert_eq!(tracker.get("drive"), 0);
}

#[test]
fn snapshot_captures_all_cycles() {
    let mut tracker = OperationCycleTracker::new();
    tracker.increment("power");
    tracker.increment("drive");
    tracker.increment("drive");

    let snap = tracker.snapshot();
    assert_eq!(snap.get_str("power"), Some(&1));
    assert_eq!(snap.get_str("drive"), Some(&2));
}

#[test]
fn apply_events_start_increments_counter() {
    let mut tracker = OperationCycleTracker::new();
    let events = vec![
        make_event("power", CycleEventType::Start),
        make_event("power", CycleEventType::Start),
    ];
    let incremented = tracker.apply_events(&events);
    assert_eq!(tracker.get("power"), 2);
    assert_eq!(incremented.len(), 2);
}

#[test]
fn apply_events_stop_does_not_increment() {
    let mut tracker = OperationCycleTracker::new();
    tracker.increment("power"); // count = 1
    let events = vec![make_event("power", CycleEventType::Stop)];
    let incremented = tracker.apply_events(&events);
    assert_eq!(tracker.get("power"), 1); // unchanged
    assert!(incremented.is_empty());
}

#[test]
fn apply_events_restart_increments_once() {
    let mut tracker = OperationCycleTracker::new();
    let events = vec![make_event("ignition", CycleEventType::Restart)];
    let incremented = tracker.apply_events(&events);
    assert_eq!(tracker.get("ignition"), 1);
    assert_eq!(incremented, vec!["ignition"]);
}

#[test]
fn apply_events_mixed_sequence() {
    let mut tracker = OperationCycleTracker::new();
    let events = vec![
        make_event("power", CycleEventType::Start),
        make_event("power", CycleEventType::Stop),
        make_event("power", CycleEventType::Start),
        make_event("ignition", CycleEventType::Start),
    ];
    tracker.apply_events(&events);
    assert_eq!(tracker.get("power"), 2);
    assert_eq!(tracker.get("ignition"), 1);
}

#[test]
fn manual_provider_poll_drains_queue() {
    let mut provider = ManualCycleProvider::new();
    provider.start_cycle("power", at());
    provider.start_cycle("ignition", at());

    let events = provider.poll();
    assert_eq!(events.len(), 2);
    assert_eq!(events[0].cycle_id, "power");
    assert_eq!(events[1].cycle_id, "ignition");

    // Second poll is empty (idempotent)
    let events2 = provider.poll();
    assert!(events2.is_empty());
}

#[test]
fn manual_provider_start_and_stop() {
    let mut provider = ManualCycleProvider::new();
    provider.start_cycle("drive", at());
    provider.stop_cycle("drive", at());

    let events = provider.poll();
    assert_eq!(events.len(), 2);
    assert_eq!(events[0].event_type, CycleEventType::Start);
    assert_eq!(events[1].event_type, CycleEventType::Stop);
}

#[test]
fn manual_provider_current_cycle_returns_none() {
    let provider = ManualCycleProvider::new();
    assert_eq!(provider.current_cycle("power"), None);
}

#[test]
fn provider_events_drive_tracker() {
    let mut provider = ManualCycleProvider::new();
    provider.start_cycle("power", at());
    provider.start_cycle("power", at());
    provider.stop_cycle("power", at());
    provider.start_cycle("ignition", at());

    let mut tracker = OperationCycleTracker::new();
    let events = provider.poll();
    tracker.apply_events(&events);

    assert_eq!(tracker.get("power"), 2);
    assert_eq!(tracker.get("ignition"), 1);
}
