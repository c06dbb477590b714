use nier::b64::base64_encode;
use nier::datetime::UtcDateTime;
use nier::messages::{
    build_dlq_message, dispatch_plan, ConsumerError, FnHandler, IncomingMessage, MessageHandler,
    MessageMetadata, OutgoingMessage, ProducerError,
};

#[test]
fn test_incoming_message_headers() {
    let headers = vec![
        (String::from("correlation-id"), String::from("test-123")),
        (String::from("message-type"), String::from("detection_event")),
    ];
    let message = IncomingMessage {
        payload: vec![1, 2, 3],
        metadata: MessageMetadata {
            topic: String::from("test"),
            partition: 0,
            offset: 100,
            key: Some(b"key".to_vec()),
            timestamp: Some(1234567890),
            headers,
        },
    };
    assert_eq!(message.correlation_id().map(|s| s.as_str()), Some("test-123"));
    assert_eq!(
        message.message_type().map(|s| s.as_str()),
        Some("detection_event")
    );
    assert_eq!(message.key_str(), Some(String::from("key")));
}

#[test]
fn test_key_str_rejects_invalid_utf8() {
    let message = IncomingMessage {
        payload: Vec::new(),
        metadata: MessageMetadata {
            topic: String::from("test"),
            partition: 0,
            offset: 0,
            key: Some(vec![0xff, 0xfe]),
            timestamp: None,
            headers: Vec::new(),
        },
    };
    assert_eq!(message.key_str(), None);
}

#[test]
fn test_outgoing_message_builder() {
    let message = OutgoingMessage {
        topic: String::from("test"),
        key: None,
        payload: vec![1, 2, 3],
        headers: vec![],
    }
    .with_key(String::from("my-key"))
    .with_header(String::from("header1"), String::from("value1"))
    .with_correlation_id(String::from("corr-123"));
    assert_eq!(message.key, Some(String::from("my-key")));
    assert_eq!(message.headers.len(), 2);
}

#[test]
fn test_base64_encode() {
    let data = b"Hello, World!".to_vec();
    let encoded = base64_encode(&data);
    assert!(!encoded.is_empty());
    assert_eq!(encoded, "SGVsbG8sIFdvcmxkIQ==");
}

#[test]
fn test_dlq_envelope() {
    let payload = b"original payload".to_vec();
    let now = UtcDateTime {
        year: 2024,
        month: 1,
        day: 15,
        hour: 10,
        minute: 30,
        second: 0,
        millisecond: 0,
    };
    let msg = build_dlq_message("nier.dlq", "nier.detections", &payload, "Processing failed", now);
    assert_eq!(msg.topic, "nier.dlq");
    assert_eq!(msg.key.as_ref().unwrap().len(), 36);
    assert_eq!(msg.headers.len(), 3);
    assert_eq!(
        msg.headers[0],
        (String::from("message-type"), String::from("dead_letter"))
    );
    assert_eq!(
        msg.headers[1],
        (String::from("original-topic"), String::from("nier.detections"))
    );
    assert_eq!(
        msg.headers[2],
        (String::from("error-reason"), String::from("Processing failed"))
    );
    let value: serde_json::Value = serde_json::from_slice(&msg.payload).unwrap();
    assert_eq!(value["original_topic"], "nier.detections");
    assert_eq!(
        value["original_message_base64"],
        base64_encode(&payload).as_str()
    );
    assert_eq!(value["error"], "Processing failed");
    assert_eq!(value["timestamp"], "2024-01-15T10:30:00Z");
}

#[test]
fn test_dispatch_plan() {
    // success with manual commits: commit, no dead-lettering
    let ok = dispatch_plan(true, false, true);
    assert!(ok.commit);
    assert!(!ok.send_to_dlq);
    // failure with a wired dead-letter producer: commit and route
    let failed = dispatch_plan(false, false, true);
    assert!(failed.commit);
    assert!(failed.send_to_dlq);
    // failure without one: no routing
    let unwired = dispatch_plan(false, false, false);
    assert!(!unwired.send_to_dlq);
    // auto-commit enabled: no manual commit
    let auto = dispatch_plan(true, true, false);
    assert!(!auto.commit);
}

#[test]
fn test_producer_error_messages() {
    let e = ProducerError::SendError {
        topic: String::from("nier.frames"),
        message: String::from("broker down"),
    };
    assert_eq!(
        e.message(),
        "Failed to send message to topic nier.frames: broker down"
    );
    assert_eq!(
        ProducerError::Timeout(5000).message(),
        "Producer timeout after 5000ms"
    );
}

#[test]
fn test_producer_builder() {
    let b = nier::messages::ProducerBuilder::new(String::from("broker:9092"))
        .client_id(String::from("client-1"))
        .idempotent(false)
        .compression(String::from("gzip"))
        .batch_size(1024)
        .linger_ms(10);
    assert_eq!(b.config.bootstrap_servers, "broker:9092");
    assert_eq!(b.config.client_id, "client-1");
    assert!(!b.config.reliability.enable_idempotence);
    assert_eq!(b.config.producer.compression_type, "gzip");
    assert_eq!(b.config.producer.batch_size, 1024);
    assert_eq!(b.config.producer.linger_ms, 10);
}

#[test]
fn test_service_compiles() {
    assert!(true);
}

#[test]
fn test_fn_handler() {
    let handler = FnHandler::new(|message: IncomingMessage| {
        if message.payload.is_empty() {
            Err(ConsumerError::ProcessingError(String::from("empty payload")))
        } else {
            Ok(())
        }
    });
    let ok = IncomingMessage {
        payload: vec![1],
        metadata: MessageMetadata {
            topic: String::from("t"),
            partition: 0,
            offset: 0,
            key: None,
            timestamp: None,
            headers: Vec::new(),
        },
    };
    assert!(handler.handle(ok).is_ok());
    let empty = IncomingMessage {
        payload: Vec::new(),
        metadata: MessageMetadata {
            topic: String::from("t"),
            partition: 0,
            offset: 0,
            key: None,
            timestamp: None,
            headers: Vec::new(),
        },
    };
    let outcome = handler.handle(empty);
    assert!(outcome.is_err());
    assert_eq!(
        outcome.unwrap_err().message(),
        "Message processing error: empty payload"
    );
}
