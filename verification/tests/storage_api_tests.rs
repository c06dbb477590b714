use nier::api::{
    default_limit, paginate, playback_query, validate_batch_request, FrameMetadataResponse,
    PlaybackQuery,
};
use nier::datetime::UtcDateTime;
use nier::events::{Detection, StorageTriggerEvent, TriggerType};
use nier::metadata::{build_frame_record, query_frames_sql, FrameMetadata, FrameQuery};

fn test_timestamp() -> UtcDateTime {
    UtcDateTime { year: 2024, month: 1, day: 15, hour: 10, minute: 30, second: 45, millisecond: 0 }
}

fn sample_frame(seq: i64) -> FrameMetadata {
    FrameMetadata {
        id: String::from("11111111-2222-3333-4444-555555555555"),
        event_id: String::from("550e8400-e29b-41d4-a716-446655440000"),
        device_id: String::from("test-device"),
        timestamp: test_timestamp(),
        frame_number: seq,
        s3_key: String::from("test/key.jpg"),
        width: 1920,
        height: 1080,
        format: String::from("jpeg"),
        trigger_type: String::from("detection"),
        storage_reason: String::from("test"),
        detection_count: 2,
        detection_types: Some(String::from("safety_vest,hard_hat")),
        max_confidence_milli: Some(950),
        size_bytes: 50000,
        metadata: None,
        created_at: test_timestamp(),
    }
}

#[test]
fn test_frame_query_builder() {
    let query = FrameQuery {
        device_id: Some(String::from("glasses-001")),
        start_time: Some(test_timestamp()),
        limit: Some(100),
        ..Default::default()
    };
    assert_eq!(query.device_id, Some(String::from("glasses-001")));
    assert_eq!(query.limit, Some(100));
}

#[test]
fn test_frame_metadata_response_from() {
    let frame = sample_frame(100);
    let response: FrameMetadataResponse = frame.into();
    assert_eq!(response.detection_count, 2);
    assert_eq!(response.format, "jpeg");
}

#[test]
fn test_default_limit() {
    assert_eq!(default_limit(), 50);
}

#[test]
fn test_batch_cap() {
    assert!(validate_batch_request(100).is_none());
    let refused = validate_batch_request(101).unwrap();
    assert_eq!(refused.0, 400);
    assert_eq!(refused.1.code, "BATCH_TOO_LARGE");
    assert_eq!(refused.1.error, "Maximum 100 frames per batch");
}

#[test]
fn test_paginate_has_more() {
    // limit 2, three rows fetched (limit + 1): more rows follow
    let frames = vec![sample_frame(1), sample_frame(2), sample_frame(3)];
    let (page, has_more) = paginate(frames, 2);
    assert!(has_more);
    assert_eq!(page.len(), 2);
    // limit 2, two rows fetched: the page is the last
    let frames = vec![sample_frame(1), sample_frame(2)];
    let (page, has_more) = paginate(frames, 2);
    assert!(!has_more);
    assert_eq!(page.len(), 2);
}

#[test]
fn test_playback_query_bounds() {
    let q = playback_query(
        String::from("d"),
        &PlaybackQuery { start_time: None, end_time: None, limit: Some(10) },
    );
    assert!(q.ascending);
    assert_eq!(q.limit, Some(10));
    assert_eq!(q.device_id, Some(String::from("d")));
    let capped = playback_query(
        String::from("d"),
        &PlaybackQuery { start_time: None, end_time: None, limit: Some(9000) },
    );
    assert_eq!(capped.limit, Some(500));
    let unspecified = playback_query(
        String::from("d"),
        &PlaybackQuery { start_time: None, end_time: None, limit: None },
    );
    assert_eq!(unspecified.limit, Some(100));
}

#[test]
fn test_query_frames_sql_text() {
    let q = FrameQuery {
        device_id: Some(String::from("glasses-001")),
        start_time: Some(test_timestamp()),
        limit: Some(100),
        ..Default::default()
    };
    let sql = query_frames_sql(&q);
    assert!(sql.starts_with("SELECT id, event_id, device_id"));
    assert!(sql.contains(" AND device_id = $1"));
    assert!(sql.contains(" AND timestamp >= $2"));
    assert!(sql.contains(" ORDER BY timestamp DESC"));
    assert!(sql.ends_with(" LIMIT $3"));
    let all = FrameQuery { ascending: true, ..Default::default() };
    assert!(query_frames_sql(&all).ends_with(" ORDER BY timestamp ASC"));
}

#[test]
fn test_build_frame_record_derives_columns() {
    let event = StorageTriggerEvent {
        event_id: String::from("550e8400-e29b-41d4-a716-446655440000"),
        device_id: String::from("glasses-001"),
        timestamp: test_timestamp(),
        frame_number: 7,
        frame_data: vec![0u8; 1234],
        width: 1920,
        height: 1080,
        format: String::from("jpeg"),
        detections: vec![
            Detection {
                detection_type: String::from("safety_vest"),
                confidence_milli: 900,
                bbox_milli: [0, 0, 500, 500],
                attributes: None,
            },
            Detection {
                detection_type: String::from("hard_hat"),
                confidence_milli: 700,
                bbox_milli: [0, 0, 500, 500],
                attributes: None,
            },
        ],
        trigger_type: TriggerType::Detection,
        metadata: None,
    };
    let record = build_frame_record(
        &event,
        String::from("frames/2024-01-15/glasses-001/detections/k.jpeg"),
        String::from("Detections: safety_vest(0.90)"),
        String::from("11111111-2222-3333-4444-555555555555"),
        test_timestamp(),
    );
    assert_eq!(record.detection_count, 1 + 1);
    assert_eq!(record.detection_types, Some(String::from("safety_vest,hard_hat")));
    assert_eq!(record.max_confidence_milli, Some(900));
    assert_eq!(record.size_bytes, 1234);
    assert_eq!(record.trigger_type, "detection");
    assert_eq!(record.frame_number, 7);
}

#[test]
fn test_detection_stored_end_to_end() {
    // a fresh high-confidence detection event: stored with a summary
    // reason, a detection-partitioned key, and exact derived columns
    let event = StorageTriggerEvent {
        event_id: String::from("550e8400-e29b-41d4-a716-446655440000"),
        device_id: String::from("glasses-001"),
        timestamp: test_timestamp(),
        frame_number: 1,
        frame_data: vec![7u8; 64],
        width: 1920,
        height: 1080,
        format: String::from("jpeg"),
        detections: vec![Detection {
            detection_type: String::from("safety_vest"),
            confidence_milli: 900,
            bbox_milli: [0, 0, 500, 500],
            attributes: None,
        }],
        trigger_type: TriggerType::Detection,
        metadata: None,
    };
    let mut selector = nier::selector::FrameSelectorBuilder::new()
        .min_confidence(500)
        .max_frame_age_secs(300)
        .build();
    let now = test_timestamp().epoch_millis() + 1000;
    let reason = match selector.should_store(&event, now) {
        nier::selector::StorageDecision::Store { reason } => reason,
        nier::selector::StorageDecision::Skip { reason } => {
            panic!("Expected Store, got Skip: {}", reason)
        }
    };
    assert!(reason.contains("safety_vest(0.90)"));
    let key = nier::uploader::generate_s3_key(&event);
    assert!(key.starts_with("frames/2024-01-15/glasses-001/detections/"));
    assert!(key.ends_with(".jpeg"));
    let record = build_frame_record(
        &event,
        key,
        reason,
        String::from("11111111-2222-3333-4444-555555555555"),
        test_timestamp(),
    );
    assert_eq!(record.detection_count, 1);
    assert_eq!(record.max_confidence_milli, Some(900));
    assert_eq!(record.detection_types, Some(String::from("safety_vest")));
}
