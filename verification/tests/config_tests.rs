use nier::ingest_config::{
    ConfigValidationError, GrpcConfig, HealthConfig, IngestConfig, LoggingConfig,
    ProcessingConfig, RtspConfig,
};
use nier::pipeline_config::{KafkaConfig, SaslMechanism, SecurityProtocol};
use nier::storage_config;

fn create_test_config() -> IngestConfig {
    IngestConfig {
        rtsp: RtspConfig {
            url: String::from("rtsp://camera:554/stream"),
            device_id: String::from("camera-001"),
            worker_id: Some(String::from("worker-123")),
            zone_id: Some(String::from("zone-a")),
            connection_timeout_secs: 10,
            max_reconnect_attempts: 5,
            reconnect_base_delay_ms: 1000,
            reconnect_max_delay_ms: 30000,
            transport: String::from("tcp"),
            buffer_ms: 200,
        },
        processing: ProcessingConfig {
            target_width: 640,
            target_height: 480,
            target_fps_milli: 10_000,
            pixel_format: String::from("RGB"),
            queue_size: 100,
            num_workers: 2,
            drop_on_backpressure: true,
        },
        grpc: GrpcConfig {
            inference_endpoint: String::from("http://inference:50051"),
            request_timeout_secs: 30,
            connection_timeout_secs: 10,
            max_concurrent_requests: 10,
            use_tls: false,
            ca_cert_path: None,
            enable_compression: false,
            batch_size: 1,
            batch_timeout_ms: 100,
        },
        logging: LoggingConfig::default(),
        health: HealthConfig::default(),
    }
}

#[test]
fn test_valid_config() {
    let config = create_test_config();
    assert!(config.validate().is_ok());
}

#[test]
fn test_missing_rtsp_url() {
    let mut config = create_test_config();
    config.rtsp.url = String::new();
    assert!(matches!(
        config.validate(),
        Err(ConfigValidationError::MissingField(_))
    ));
}

#[test]
fn test_invalid_rtsp_url() {
    let mut config = create_test_config();
    config.rtsp.url = String::from("http://camera:554/stream");
    assert!(matches!(
        config.validate(),
        Err(ConfigValidationError::InvalidValue { .. })
    ));
}

#[test]
fn test_missing_device_id() {
    let mut config = create_test_config();
    config.rtsp.device_id = String::new();
    assert!(matches!(
        config.validate(),
        Err(ConfigValidationError::MissingField(_))
    ));
}

#[test]
fn test_invalid_dimensions() {
    let mut config = create_test_config();
    config.processing.target_width = 0;
    assert!(matches!(
        config.validate(),
        Err(ConfigValidationError::InvalidValue { .. })
    ));
}

#[test]
fn test_invalid_fps() {
    let mut config = create_test_config();
    config.processing.target_fps_milli = 0;
    assert!(matches!(
        config.validate(),
        Err(ConfigValidationError::InvalidValue { .. })
    ));
}

#[test]
fn test_missing_inference_endpoint() {
    let mut config = create_test_config();
    config.grpc.inference_endpoint = String::new();
    assert!(matches!(
        config.validate(),
        Err(ConfigValidationError::MissingField(_))
    ));
}

#[test]
fn test_default_config() {
    let config = KafkaConfig::default();
    assert_eq!(config.bootstrap_servers, "localhost:9092");
    assert_eq!(config.client_id, "nier-pipeline");
    assert!(config.validate().is_ok());
}

#[test]
fn test_sasl_requires_username() {
    let mut config = KafkaConfig::default();
    config.security_protocol = SecurityProtocol::SaslSsl;
    assert!(config.validate().is_err());
    config.sasl.username = Some(String::from("user"));
    assert!(config.validate().is_ok());
}

#[test]
fn test_missing_bootstrap_servers() {
    let mut config = KafkaConfig::default();
    config.bootstrap_servers = String::new();
    assert!(config.validate().is_err());
}

#[test]
fn test_producer_config_build() {
    let config = KafkaConfig::new(String::from("localhost:9092"));
    let producer_config = config.build_producer_config();
    assert!(producer_config.get("bootstrap.servers").is_some());
    assert!(producer_config.get("acks").is_some());
}

#[test]
fn test_consumer_config_build() {
    let config = KafkaConfig::new(String::from("localhost:9092"));
    let consumer_config = config.build_consumer_config();
    assert!(consumer_config.get("bootstrap.servers").is_some());
    assert!(consumer_config.get("group.id").is_some());
}

#[test]
fn test_producer_config_values() {
    let config = KafkaConfig::new(String::from("broker:9092"));
    let props = config.build_producer_config();
    assert_eq!(props.get("bootstrap.servers").unwrap(), "broker:9092");
    assert_eq!(props.get("acks").unwrap(), "all");
    assert_eq!(props.get("enable.idempotence").unwrap(), "true");
    assert_eq!(props.get("compression.type").unwrap(), "lz4");
    assert_eq!(props.get("batch.size").unwrap(), "16384");
    assert_eq!(props.get("linger.ms").unwrap(), "5");
    assert_eq!(props.get("retries").unwrap(), "3");
}

#[test]
fn test_consumer_config_values() {
    let config = KafkaConfig::new(String::from("broker:9092"));
    let props = config.build_consumer_config();
    assert_eq!(props.get("group.id").unwrap(), "nier-pipeline");
    assert_eq!(props.get("auto.offset.reset").unwrap(), "earliest");
    assert_eq!(props.get("enable.auto.commit").unwrap(), "false");
    assert_eq!(props.get("session.timeout.ms").unwrap(), "30000");
}

#[test]
fn test_security_protocol_names() {
    assert_eq!(SecurityProtocol::Plaintext.as_str(), "plaintext");
    assert_eq!(SecurityProtocol::Ssl.as_str(), "ssl");
    assert_eq!(SecurityProtocol::SaslPlaintext.as_str(), "sasl_plaintext");
    assert_eq!(SecurityProtocol::SaslSsl.as_str(), "sasl_ssl");
    assert_eq!(SaslMechanism::Plain.as_str(), "PLAIN");
    assert_eq!(SaslMechanism::ScramSha256.as_str(), "SCRAM-SHA-256");
    assert_eq!(SaslMechanism::ScramSha512.as_str(), "SCRAM-SHA-512");
    assert_eq!(SaslMechanism::OAuthBearer.as_str(), "OAUTHBEARER");
}

#[test]
fn test_default_values() {
    assert_eq!(storage_config::default_sample_rate(), 30);
    assert_eq!(storage_config::default_min_confidence(), 500);
    assert_eq!(storage_config::default_presigned_url_expiry_secs(), 3600);
}

#[test]
fn test_storage_defaults() {
    assert_eq!(storage_config::default_service_name(), "storage-service");
    assert_eq!(storage_config::default_storage_topic(), "nier.storage.triggers");
    assert_eq!(storage_config::default_multipart_threshold(), 5 * 1024 * 1024);
    assert_eq!(storage_config::default_max_frame_age_secs(), 300);
}

#[test]
fn test_empty_group_id_validates() {
    // only missing brokers and SASL-without-username are rejected
    let mut config = KafkaConfig::default();
    config.consumer.group_id = String::new();
    assert!(config.validate().is_ok());
}
