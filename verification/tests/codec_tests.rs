use base64::Engine;
use chrono::TimeZone;
use nier::b64::{base64_decode, base64_encode};
use nier::codec::{decode_storage_event, encode_storage_event};
use nier::datetime::{parse_rfc3339, UtcDateTime};
use nier::events::{Detection, StorageTriggerEvent, TriggerType};

fn sample_event() -> StorageTriggerEvent {
    StorageTriggerEvent {
        event_id: String::from("550e8400-e29b-41d4-a716-446655440000"),
        device_id: String::from("glasses-001"),
        timestamp: UtcDateTime {
            year: 2024,
            month: 1,
            day: 15,
            hour: 10,
            minute: 30,
            second: 0,
            millisecond: 0,
        },
        frame_number: 12345,
        frame_data: b"Hello World".to_vec(),
        width: 1920,
        height: 1080,
        format: String::from("jpeg"),
        detections: vec![Detection {
            detection_type: String::from("safety_vest"),
            confidence_milli: 950,
            bbox_milli: [100, 200, 300, 400],
            attributes: Some(Vec::new()),
        }],
        trigger_type: TriggerType::Detection,
        metadata: Some(Vec::new()),
    }
}

#[test]
fn test_deserialize_storage_trigger_event() {
    let json = r#"{
            "event_id": "550e8400-e29b-41d4-a716-446655440000",
            "device_id": "glasses-001",
            "timestamp": "2024-01-15T10:30:00Z",
            "frame_number": 12345,
            "frame_data": "SGVsbG8gV29ybGQ=",
            "width": 1920,
            "height": 1080,
            "format": "jpeg",
            "detections": [{
                "detection_type": "safety_vest",
                "confidence": 0.95,
                "bbox": [0.1, 0.2, 0.3, 0.4],
                "attributes": {}
            }],
            "trigger_type": "detection",
            "metadata": {}
        }"#;
    let event = decode_storage_event(json).unwrap();
    assert_eq!(event.device_id, "glasses-001");
    assert_eq!(event.detections.len(), 1);
    assert_eq!(event.trigger_type, TriggerType::Detection);
    assert_eq!(event.frame_data, b"Hello World".to_vec());
    assert_eq!(event.detections[0].confidence_milli, 950);
    assert_eq!(event.detections[0].bbox_milli, [100, 200, 300, 400]);
    assert_eq!(event.timestamp.hour, 10);
}

#[test]
fn test_trigger_type_serialization() {
    assert_eq!(
        format!("\"{}\"", TriggerType::Detection.name()),
        "\"detection\""
    );
    assert_eq!(format!("\"{}\"", TriggerType::Sample.name()), "\"sample\"");
}

#[test]
fn test_event_round_trip() {
    let event = sample_event();
    let encoded = encode_storage_event(&event);
    let decoded = decode_storage_event(encoded.as_str()).unwrap();
    assert_eq!(decoded.event_id, event.event_id);
    assert_eq!(decoded.device_id, event.device_id);
    assert_eq!(decoded.timestamp, event.timestamp);
    assert_eq!(decoded.frame_number, event.frame_number);
    assert_eq!(decoded.frame_data, event.frame_data);
    assert_eq!(decoded.width, event.width);
    assert_eq!(decoded.height, event.height);
    assert_eq!(decoded.format, event.format);
    assert_eq!(decoded.detections.len(), event.detections.len());
    assert_eq!(
        decoded.detections[0].detection_type,
        event.detections[0].detection_type
    );
    assert_eq!(
        decoded.detections[0].confidence_milli,
        event.detections[0].confidence_milli
    );
    assert_eq!(decoded.detections[0].bbox_milli, event.detections[0].bbox_milli);
    assert_eq!(decoded.trigger_type, event.trigger_type);
    assert_eq!(decoded.metadata, event.metadata);
}

#[test]
fn test_round_trip_with_metadata_and_escapes() {
    let mut event = sample_event();
    event.device_id = String::from("dev\"with\\quotes\nand lines");
    event.metadata = Some(vec![
        (String::from("alert_type"), String::from("ppe_violation")),
        (String::from("zone"), String::from("assembly")),
    ]);
    event.trigger_type = TriggerType::Alert;
    let encoded = encode_storage_event(&event);
    let decoded = decode_storage_event(encoded.as_str()).unwrap();
    assert_eq!(decoded.device_id, event.device_id);
    assert_eq!(decoded.metadata, event.metadata);
    assert_eq!(decoded.trigger_type, TriggerType::Alert);
}

#[test]
fn test_encoded_shape() {
    let event = sample_event();
    let encoded = encode_storage_event(&event);
    assert!(encoded.starts_with("{\"event_id\":\"550e8400-e29b-41d4-a716-446655440000\""));
    assert!(encoded.contains("\"frame_data\":\"SGVsbG8gV29ybGQ=\""));
    assert!(encoded.contains("\"trigger_type\":\"detection\""));
    assert!(encoded.contains("\"timestamp\":\"2024-01-15T10:30:00Z\""));
    assert!(encoded.contains("\"confidence\":0.95"));
}

#[test]
fn test_encoder_agrees_with_reference_json() {
    let event = sample_event();
    let encoded = encode_storage_event(&event);
    let value: serde_json::Value = serde_json::from_str(encoded.as_str()).unwrap();
    assert_eq!(value["device_id"], "glasses-001");
    assert_eq!(value["frame_number"], 12345);
    assert_eq!(value["width"], 1920);
    assert_eq!(value["detections"][0]["detection_type"], "safety_vest");
}

#[test]
fn test_decode_rejects_garbage() {
    assert!(decode_storage_event("not json").is_err());
    assert!(decode_storage_event("{}").is_err());
    assert!(decode_storage_event("").is_err());
}

#[test]
fn test_base64_known_vectors() {
    assert_eq!(base64_encode(&b"Hello World".to_vec()), "SGVsbG8gV29ybGQ=");
    assert_eq!(base64_encode(&Vec::new()), "");
    assert_eq!(base64_encode(&b"a".to_vec()), "YQ==");
    assert_eq!(base64_encode(&b"ab".to_vec()), "YWI=");
    assert_eq!(base64_encode(&b"abc".to_vec()), "YWJj");
}

#[test]
fn test_base64_decode_inverts_encode() {
    for data in [
        Vec::new(),
        b"a".to_vec(),
        b"ab".to_vec(),
        b"abc".to_vec(),
        b"Hello World".to_vec(),
        vec![0u8, 255, 128, 7, 9, 200, 201],
    ] {
        let encoded = base64_encode(&data);
        assert_eq!(base64_decode(encoded.as_str()).unwrap(), data);
    }
    assert_eq!(
        base64_decode("SGVsbG8gV29ybGQ=").unwrap(),
        b"Hello World".to_vec()
    );
}

#[test]
fn test_base64_agrees_with_reference() {
    for data in [
        b"Hello, World!".to_vec(),
        vec![1u8, 2, 3, 4, 5],
        vec![250u8; 33],
        Vec::new(),
    ] {
        let ours = base64_encode(&data);
        let reference = base64::engine::general_purpose::STANDARD.encode(&data);
        assert_eq!(ours, reference);
    }
}

#[test]
fn test_rfc3339_parse_and_format() {
    let dt = parse_rfc3339("2024-01-15T10:30:45Z").unwrap();
    assert_eq!(
        dt,
        UtcDateTime {
            year: 2024,
            month: 1,
            day: 15,
            hour: 10,
            minute: 30,
            second: 45,
            millisecond: 0
        }
    );
    assert_eq!(dt.format_rfc3339(), "2024-01-15T10:30:45Z");
    let with_ms = parse_rfc3339("2024-01-15T10:30:45.123Z").unwrap();
    assert_eq!(with_ms.millisecond, 123);
    assert_eq!(with_ms.format_rfc3339(), "2024-01-15T10:30:45.123Z");
    assert!(parse_rfc3339("2024-13-15T10:30:45Z").is_none());
    assert!(parse_rfc3339("2024-02-30T10:30:45Z").is_none());
    assert!(parse_rfc3339("garbage").is_none());
}

#[test]
fn test_epoch_millis_agrees_with_reference() {
    let dt = UtcDateTime {
        year: 2024,
        month: 1,
        day: 15,
        hour: 10,
        minute: 30,
        second: 45,
        millisecond: 0,
    };
    let reference = chrono::Utc
        .with_ymd_and_hms(2024, 1, 15, 10, 30, 45)
        .unwrap()
        .timestamp_millis();
    assert_eq!(dt.epoch_millis() as i64, reference);
    let epoch = UtcDateTime {
        year: 1970,
        month: 1,
        day: 1,
        hour: 0,
        minute: 0,
        second: 0,
        millisecond: 0,
    };
    assert_eq!(epoch.epoch_millis(), 0);
}
