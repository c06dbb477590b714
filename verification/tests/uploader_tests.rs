use nier::datetime::UtcDateTime;
use nier::events::{StorageTriggerEvent, TriggerType};
use nier::uploader::{
    generate_s3_key, get_content_type, list_prefix, needs_multipart, object_metadata, plan_parts,
    sanitize_path_component, UploadLedger,
};

fn create_test_event() -> StorageTriggerEvent {
    StorageTriggerEvent {
        event_id: String::from("550e8400-e29b-41d4-a716-446655440000"),
        device_id: String::from("glasses-001"),
        timestamp: UtcDateTime {
            year: 2024,
            month: 1,
            day: 15,
            hour: 10,
            minute: 30,
            second: 45,
            millisecond: 0,
        },
        frame_number: 12345,
        frame_data: vec![0u8; 100],
        width: 1920,
        height: 1080,
        format: String::from("jpeg"),
        detections: Vec::new(),
        trigger_type: TriggerType::Detection,
        metadata: None,
    }
}

#[test]
fn test_generate_s3_key_detection() {
    let event = create_test_event();
    let key = generate_s3_key(&event);
    assert!(key.contains("2024-01-15"));
    assert!(key.contains("glasses-001"));
    assert!(key.contains("detections"));
    assert_eq!(
        key,
        "frames/2024-01-15/glasses-001/detections/103045000_550e8400-e29b-41d4-a716-446655440000.jpeg"
    );
}

#[test]
fn test_key_uses_sanitized_device() {
    let mut event = create_test_event();
    event.device_id = String::from("glasses/001");
    let key = generate_s3_key(&event);
    assert!(key.contains("glasses_001"));
}

#[test]
fn test_sanitize_path_component() {
    assert_eq!(sanitize_path_component("glasses-001"), "glasses-001");
    assert_eq!(sanitize_path_component("device/path"), "device_path");
    assert_eq!(sanitize_path_component("dev..ice"), "dev__ice");
    assert_eq!(sanitize_path_component("hello world"), "hello_world");
}

#[test]
fn test_get_content_type() {
    assert_eq!(get_content_type("jpeg"), "image/jpeg");
    assert_eq!(get_content_type("JPEG"), "image/jpeg");
    assert_eq!(get_content_type("jpg"), "image/jpeg");
    assert_eq!(get_content_type("png"), "image/png");
    assert_eq!(get_content_type("webp"), "image/webp");
    assert_eq!(get_content_type("bmp"), "image/bmp");
    assert_eq!(get_content_type("gif"), "image/gif");
    assert_eq!(get_content_type("unknown"), "application/octet-stream");
}

#[test]
fn test_object_metadata_entries() {
    let event = create_test_event();
    let meta = object_metadata(&event);
    assert_eq!(meta.len(), 6);
    assert_eq!(meta[0], (String::from("device-id"), String::from("glasses-001")));
    assert_eq!(meta[1], (String::from("frame-number"), String::from("12345")));
    assert_eq!(meta[2], (String::from("trigger-type"), String::from("detection")));
    assert_eq!(meta[3], (String::from("width"), String::from("1920")));
    assert_eq!(meta[4], (String::from("height"), String::from("1080")));
    assert_eq!(
        meta[5],
        (String::from("timestamp"), String::from("2024-01-15T10:30:45Z"))
    );
}

#[test]
fn test_multipart_threshold() {
    assert!(!needs_multipart(5 * 1024 * 1024, 5 * 1024 * 1024));
    assert!(needs_multipart(5 * 1024 * 1024 + 1, 5 * 1024 * 1024));
}

#[test]
fn test_plan_parts_exact_division() {
    let parts = plan_parts(100, 25);
    assert_eq!(parts.len(), 4);
    assert_eq!(parts[0], (0, 25));
    assert_eq!(parts[3], (75, 25));
}

#[test]
fn test_plan_parts_with_remainder() {
    let parts = plan_parts(110, 25);
    assert_eq!(parts.len(), 5);
    assert_eq!(parts[4], (100, 10));
}

#[test]
fn test_plan_parts_small_and_empty() {
    assert_eq!(plan_parts(0, 25).len(), 0);
    let parts = plan_parts(10, 25);
    assert_eq!(parts, vec![(0, 10)]);
}

#[test]
fn test_list_prefix() {
    assert_eq!(list_prefix("2024-01-15", None, None), "frames/2024-01-15");
    assert_eq!(
        list_prefix("2024-01-15", Some("glasses/001"), None),
        "frames/2024-01-15/glasses_001"
    );
    assert_eq!(
        list_prefix("2024-01-15", Some("glasses-001"), Some("detections")),
        "frames/2024-01-15/glasses-001/detections"
    );
}

#[test]
fn test_upload_ledger_orders_commits() {
    let mut ledger = UploadLedger::new();
    let key = String::from("frames/2024-01-15/d/detections/k.jpeg");
    assert!(!ledger.commit_after_upload(key.clone()));
    assert_eq!(ledger.committed.len(), 0);
    ledger.record_upload(key.clone());
    assert!(ledger.has_upload(key.as_str()));
    assert!(ledger.commit_after_upload(key.clone()));
    assert_eq!(ledger.committed.len(), 1);
    assert_eq!(ledger.uploaded.len(), 1);
}
