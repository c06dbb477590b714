use nier::ingest_config::RtspConfig;
use nier::rtsp::{
    backoff_delay, build_pipeline_string, ConnectionState, ReconnectPolicy, StreamStats,
};

fn create_test_config() -> RtspConfig {
    RtspConfig {
        url: String::from("rtsp://test:554/stream"),
        device_id: String::from("test-device"),
        worker_id: None,
        zone_id: None,
        connection_timeout_secs: 5,
        max_reconnect_attempts: 3,
        reconnect_base_delay_ms: 100,
        reconnect_max_delay_ms: 1000,
        transport: String::from("tcp"),
        buffer_ms: 100,
    }
}

#[test]
fn test_connection_state_default() {
    let policy = ReconnectPolicy::new();
    assert_eq!(policy.state, ConnectionState::Disconnected);
}

#[test]
fn test_stats_default() {
    let stats = StreamStats::default();
    assert_eq!(stats.frames_received, 0);
    assert_eq!(stats.reconnect_count, 0);
}

#[test]
fn test_pipeline_string_tcp() {
    let config = create_test_config();
    let pipeline = build_pipeline_string(&config);
    assert!(pipeline.contains("protocols=2"));
    assert!(pipeline.contains("rtsp://test:554/stream"));
}

#[test]
fn test_pipeline_string_udp() {
    let mut config = create_test_config();
    config.transport = String::from("udp");
    let pipeline = build_pipeline_string(&config);
    assert!(pipeline.contains("protocols=0"));
}

#[test]
fn test_pipeline_string_udp_mcast() {
    let mut config = create_test_config();
    config.transport = String::from("udp-mcast");
    let pipeline = build_pipeline_string(&config);
    assert!(pipeline.contains("protocols=1"));
    assert!(pipeline.contains("latency=100"));
}

#[test]
fn test_backoff_doubles_to_cap() {
    assert_eq!(backoff_delay(100, 1000, 0), 100);
    assert_eq!(backoff_delay(100, 1000, 1), 200);
    assert_eq!(backoff_delay(100, 1000, 2), 400);
    assert_eq!(backoff_delay(100, 1000, 3), 800);
    assert_eq!(backoff_delay(100, 1000, 4), 1000);
    assert_eq!(backoff_delay(100, 1000, 10), 1000);
}

#[test]
fn test_reconnect_cap_reached_after_exact_attempts() {
    // a uniformly failing endpoint with a cap of three
    let mut policy = ReconnectPolicy::new();
    policy.begin_attempt();
    assert_eq!(policy.state, ConnectionState::Connecting);
    assert!(!policy.record_failure(3));
    policy.begin_attempt();
    assert_eq!(policy.state, ConnectionState::Reconnecting);
    assert!(!policy.record_failure(3));
    policy.begin_attempt();
    assert!(policy.record_failure(3));
    assert_eq!(policy.state, ConnectionState::Failed);
    assert_eq!(policy.attempts, 3);
}

#[test]
fn test_reconnect_succeeds_within_cap() {
    // connection refused twice, then success
    let mut policy = ReconnectPolicy::new();
    policy.begin_attempt();
    assert!(!policy.record_failure(5));
    policy.begin_attempt();
    assert_eq!(policy.state, ConnectionState::Reconnecting);
    assert!(!policy.record_failure(5));
    policy.begin_attempt();
    assert_eq!(policy.state, ConnectionState::Reconnecting);
    policy.record_success();
    assert_eq!(policy.state, ConnectionState::Connected);
    assert_eq!(policy.attempts, 2);
    assert!(backoff_delay(100, 1000, 0) >= 100);
    assert!(backoff_delay(100, 1000, 1) <= 1000);
}

#[test]
fn test_infinite_retries_when_cap_is_zero() {
    let mut policy = ReconnectPolicy::new();
    for _ in 0..100 {
        policy.begin_attempt();
        assert!(!policy.record_failure(0));
    }
    assert_eq!(policy.attempts, 100);
}

#[test]
fn test_stream_stats_record_frame() {
    let mut stats = StreamStats::default();
    stats.stream_start_us = Some(0);
    stats.record_frame(1000, 500_000);
    assert_eq!(stats.frames_received, 1);
    assert_eq!(stats.bytes_received, 1000);
    assert_eq!(stats.last_frame_at_us, Some(500_000));
    // one frame over half a second: two frames per second
    assert_eq!(stats.current_fps_milli, 2000);
    stats.record_dropped();
    assert_eq!(stats.frames_dropped, 1);
}
