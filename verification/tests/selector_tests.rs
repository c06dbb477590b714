use nier::datetime::UtcDateTime;
use nier::events::{Detection, StorageTriggerEvent, TriggerType};
use nier::selector::{FrameSelectorBuilder, StorageDecision};

fn test_timestamp() -> UtcDateTime {
    UtcDateTime { year: 2024, month: 1, day: 15, hour: 10, minute: 30, second: 45, millisecond: 0 }
}

fn now_ms() -> u64 {
    // one second after the test timestamp
    test_timestamp().epoch_millis() + 1000
}

fn create_test_event(trigger_type: TriggerType) -> StorageTriggerEvent {
    StorageTriggerEvent {
        event_id: String::from("550e8400-e29b-41d4-a716-446655440000"),
        device_id: String::from("test-device"),
        timestamp: test_timestamp(),
        frame_number: 1,
        frame_data: Vec::new(),
        width: 1920,
        height: 1080,
        format: String::from("jpeg"),
        detections: Vec::new(),
        trigger_type,
        metadata: None,
    }
}

fn create_detection(detection_type: &str, confidence_milli: u32) -> Detection {
    Detection {
        detection_type: String::from(detection_type),
        confidence_milli,
        bbox_milli: [0, 0, 500, 500],
        attributes: None,
    }
}

#[test]
fn test_detection_frame_with_high_confidence() {
    let mut selector = FrameSelectorBuilder::new().min_confidence(500).build();
    let mut event = create_test_event(TriggerType::Detection);
    event.detections = vec![create_detection("safety_vest", 900)];
    match selector.should_store(&event, now_ms()) {
        StorageDecision::Store { reason } => {
            assert!(reason.contains("safety_vest"));
        }
        StorageDecision::Skip { reason } => {
            panic!("Expected Store, got Skip: {}", reason);
        }
    }
}

#[test]
fn test_detection_frame_with_low_confidence() {
    let mut selector = FrameSelectorBuilder::new().min_confidence(800).build();
    let mut event = create_test_event(TriggerType::Detection);
    event.detections = vec![create_detection("safety_vest", 500)];
    match selector.should_store(&event, now_ms()) {
        StorageDecision::Skip { reason } => {
            assert!(reason.contains("confidence threshold"));
        }
        StorageDecision::Store { reason } => {
            panic!("Expected Skip, got Store: {}", reason);
        }
    }
}

#[test]
fn test_detection_type_filter() {
    let mut selector = FrameSelectorBuilder::new()
        .detection_types(vec![String::from("safety_vest")])
        .build();
    let mut event = create_test_event(TriggerType::Detection);
    event.detections = vec![create_detection("safety_vest", 900)];
    assert!(matches!(
        selector.should_store(&event, now_ms()),
        StorageDecision::Store { .. }
    ));
    event.detections = vec![create_detection("hard_hat", 900)];
    assert!(matches!(
        selector.should_store(&event, now_ms()),
        StorageDecision::Skip { .. }
    ));
}

#[test]
fn test_sample_rate() {
    let mut selector = FrameSelectorBuilder::new().sample_rate(3).build();
    let event = create_test_event(TriggerType::Sample);
    assert!(matches!(
        selector.should_store(&event, now_ms()),
        StorageDecision::Store { .. }
    ));
    assert!(matches!(
        selector.should_store(&event, now_ms()),
        StorageDecision::Skip { .. }
    ));
    assert!(matches!(
        selector.should_store(&event, now_ms()),
        StorageDecision::Skip { .. }
    ));
    assert!(matches!(
        selector.should_store(&event, now_ms()),
        StorageDecision::Store { .. }
    ));
    assert!(matches!(
        selector.should_store(&event, now_ms()),
        StorageDecision::Skip { .. }
    ));
}

#[test]
fn test_old_frame_rejection() {
    let mut selector = FrameSelectorBuilder::new().max_frame_age_secs(60).build();
    let event = create_test_event(TriggerType::Manual);
    // two minutes after the frame's timestamp
    let now = test_timestamp().epoch_millis() + 120_000;
    match selector.should_store(&event, now) {
        StorageDecision::Skip { reason } => {
            assert!(reason.contains("too old"));
        }
        StorageDecision::Store { reason } => {
            panic!("Expected Skip, got Store: {}", reason);
        }
    }
}

#[test]
fn test_manual_trigger_always_stores() {
    let mut selector = FrameSelectorBuilder::new().build();
    let event = create_test_event(TriggerType::Manual);
    assert!(matches!(
        selector.should_store(&event, now_ms()),
        StorageDecision::Store { .. }
    ));
}

#[test]
fn test_alert_trigger_always_stores() {
    let mut selector = FrameSelectorBuilder::new().build();
    let event = create_test_event(TriggerType::Alert);
    assert!(matches!(
        selector.should_store(&event, now_ms()),
        StorageDecision::Store { .. }
    ));
}

#[test]
fn test_alert_reason_names_alert_type() {
    let mut selector = FrameSelectorBuilder::new().build();
    let mut event = create_test_event(TriggerType::Alert);
    event.metadata = Some(vec![(String::from("alert_type"), String::from("ppe_violation"))]);
    match selector.should_store(&event, now_ms()) {
        StorageDecision::Store { reason } => {
            assert_eq!(reason, "Alert: ppe_violation");
        }
        StorageDecision::Skip { reason } => panic!("Expected Store, got Skip: {}", reason),
    }
}

#[test]
fn test_detection_reason_formats_confidence() {
    let mut selector = FrameSelectorBuilder::new().min_confidence(500).build();
    let mut event = create_test_event(TriggerType::Detection);
    event.detections = vec![create_detection("safety_vest", 900)];
    match selector.should_store(&event, now_ms()) {
        StorageDecision::Store { reason } => {
            assert_eq!(reason, "Detections: safety_vest(0.90)");
        }
        StorageDecision::Skip { reason } => panic!("Expected Store, got Skip: {}", reason),
    }
}

#[test]
fn test_sample_cadence_over_stream() {
    // rate 3 over 7 samples: stores at observations 1, 4 and 7
    let mut selector = FrameSelectorBuilder::new().sample_rate(3).build();
    let event = create_test_event(TriggerType::Sample);
    let mut stores = 0;
    for _ in 0..7 {
        if matches!(
            selector.should_store(&event, now_ms()),
            StorageDecision::Store { .. }
        ) {
            stores += 1;
        }
    }
    assert_eq!(stores, 1 + (7 - 1) / 3);
}

#[test]
fn test_device_counters() {
    let mut selector = FrameSelectorBuilder::new().sample_rate(3).build();
    let event = create_test_event(TriggerType::Sample);
    assert_eq!(selector.get_device_counter("test-device"), None);
    selector.should_store(&event, now_ms());
    assert_eq!(selector.get_device_counter("test-device"), Some(1));
    selector.should_store(&event, now_ms());
    assert_eq!(selector.get_device_counter("test-device"), Some(2));
    selector.reset_device_counter("test-device");
    assert_eq!(selector.get_device_counter("test-device"), None);
}

#[test]
fn test_age_gate_applies_to_every_trigger() {
    for trigger in [
        TriggerType::Detection,
        TriggerType::Sample,
        TriggerType::Debug,
        TriggerType::Manual,
        TriggerType::Alert,
    ] {
        let mut selector = FrameSelectorBuilder::new().max_frame_age_secs(60).build();
        let mut event = create_test_event(trigger);
        event.detections = vec![create_detection("safety_vest", 900)];
        let now = test_timestamp().epoch_millis() + 120_000;
        assert!(matches!(
            selector.should_store(&event, now),
            StorageDecision::Skip { .. }
        ));
    }
}

#[test]
fn test_age_gate_is_millisecond_exact() {
    // one millisecond past the bound skips; exactly at the bound stores
    let mut selector = FrameSelectorBuilder::new().max_frame_age_secs(60).build();
    let event = create_test_event(TriggerType::Manual);
    let at_bound = test_timestamp().epoch_millis() + 60_000;
    assert!(matches!(
        selector.should_store(&event, at_bound),
        StorageDecision::Store { .. }
    ));
    assert!(matches!(
        selector.should_store(&event, at_bound + 1),
        StorageDecision::Skip { .. }
    ));
}
