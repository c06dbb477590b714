//! Configuration of the ingest service.
//!
//! Loading from files and environment stays outside the library; the
//! structures here hold the loaded values, their documented defaults,
//! and the validation the service runs at startup.

use vstd::prelude::*;
use crate::strutil::str_starts_with;

verus! {

/// Main configuration of the ingest service.
#[derive(Debug, Clone)]
pub struct IngestConfig {
    /// Stream connection configuration
    pub rtsp: RtspConfig,
    /// Frame processing configuration
    pub processing: ProcessingConfig,
    /// Inference client configuration
    pub grpc: GrpcConfig,
    /// Logging configuration
    pub logging: LoggingConfig,
    /// Health check configuration
    pub health: HealthConfig,
}

/// Stream connection configuration.
#[derive(Debug, Clone)]
pub struct RtspConfig {
    /// Stream URL (`rtsp://...` or `rtsps://...`)
    pub url: String,
    /// Device identifier of this camera
    pub device_id: String,
    /// Worker identifier associated with the device
    pub worker_id: Option<String>,
    /// Factory zone identifier
    pub zone_id: Option<String>,
    /// Connection timeout in seconds
    pub connection_timeout_secs: u64,
    /// Maximum reconnection attempts (0 = infinite)
    pub max_reconnect_attempts: u32,
    /// Base delay between reconnection attempts in milliseconds
    pub reconnect_base_delay_ms: u64,
    /// Maximum delay between reconnection attempts in milliseconds
    pub reconnect_max_delay_ms: u64,
    /// Transport protocol (tcp, udp, or udp-mcast)
    pub transport: String,
    /// Jitter buffer in milliseconds
    pub buffer_ms: u32,
}

/// Frame processing configuration.  The target rate is held in
/// thousandths of a frame per second.
#[derive(Debug, Clone)]
pub struct ProcessingConfig {
    /// Target width of processed frames
    pub target_width: u32,
    /// Target height of processed frames
    pub target_height: u32,
    /// Target rate in thousandths of a frame per second
    pub target_fps_milli: u32,
    /// Output pixel format
    pub pixel_format: String,
    /// Queue bound for frames pending processing
    pub queue_size: usize,
    /// Worker count for frame processing
    pub num_workers: usize,
    /// Drop frames when the queue is full
    pub drop_on_backpressure: bool,
}

/// Inference client configuration.
#[derive(Debug, Clone)]
pub struct GrpcConfig {
    /// Inference service endpoint
    pub inference_endpoint: String,
    /// Request timeout in seconds
    pub request_timeout_secs: u64,
    /// Connection timeout in seconds
    pub connection_timeout_secs: u64,
    /// Maximum concurrent requests
    pub max_concurrent_requests: usize,
    /// Use TLS
    pub use_tls: bool,
    /// Path to the CA certificate when using TLS
    pub ca_cert_path: Option<String>,
    /// Enable compression
    pub enable_compression: bool,
    /// Batch size for frame submission
    pub batch_size: usize,
    /// Longest wait for a batch to fill, in milliseconds
    pub batch_timeout_ms: u64,
}

/// Logging configuration.
#[derive(Debug, Clone)]
pub struct LoggingConfig {
    /// Log level (trace, debug, info, warn, error)
    pub level: String,
    /// Output format (json, pretty)
    pub format: String,
    /// Include source locations
    pub include_location: bool,
}

/// Health check configuration.
#[derive(Debug, Clone)]
pub struct HealthConfig {
    /// Interval between health checks in seconds
    pub interval_secs: u64,
    /// Port of the health check server
    pub port: u16,
    /// Enable metrics export
    pub enable_metrics: bool,
}

pub fn default_connection_timeout() -> (r: u64)
    ensures
        r == 10,
{
    10
}

pub fn default_max_reconnect_attempts() -> (r: u32)
    ensures
        r == 0,
{
    0
}

pub fn default_reconnect_base_delay_ms() -> (r: u64)
    ensures
        r == 1000,
{
    1000
}

pub fn default_reconnect_max_delay_ms() -> (r: u64)
    ensures
        r == 30000,
{
    30000
}

pub fn default_transport() -> (r: String)
    ensures
        r@ == "tcp"@,
{
    String::from_str("tcp")
}

pub fn default_buffer_ms() -> (r: u32)
    ensures
        r == 200,
{
    200
}

pub fn default_target_width() -> (r: u32)
    ensures
        r == 640,
{
    640
}

pub fn default_target_height() -> (r: u32)
    ensures
        r == 480,
{
    480
}

/// Ten frames per second, in thousandths.
pub fn default_target_fps() -> (r: u32)
    ensures
        r == 10000,
{
    10000
}

pub fn default_pixel_format() -> (r: String)
    ensures
        r@ == "RGB"@,
{
    String::from_str("RGB")
}

pub fn default_queue_size() -> (r: usize)
    ensures
        r == 100,
{
    100
}

pub fn default_num_workers() -> (r: usize)
    ensures
        r == 2,
{
    2
}

pub fn default_drop_on_backpressure() -> (r: bool)
    ensures
        r == true,
{
    true
}

pub fn default_request_timeout() -> (r: u64)
    ensures
        r == 30,
{
    30
}

pub fn default_grpc_connection_timeout() -> (r: u64)
    ensures
        r == 10,
{
    10
}

pub fn default_max_concurrent_requests() -> (r: usize)
    ensures
        r == 10,
{
    10
}

pub fn default_batch_size() -> (r: usize)
    ensures
        r == 1,
{
    1
}

pub fn default_batch_timeout_ms() -> (r: u64)
    ensures
        r == 100,
{
    100
}

pub fn default_log_level() -> (r: String)
    ensures
        r@ == "info"@,
{
    String::from_str("info")
}

pub fn default_log_format() -> (r: String)
    ensures
        r@ == "json"@,
{
    String::from_str("json")
}

pub fn default_health_interval() -> (r: u64)
    ensures
        r == 30,
{
    30
}

pub fn default_health_port() -> (r: u16)
    ensures
        r == 8080,
{
    8080
}

impl Default for LoggingConfig {
    fn default() -> (r: Self)
        ensures
            r.level@ == "info"@,
            r.format@ == "json"@,
            r.include_location == false,
    {
        LoggingConfig {
            level: default_log_level(),
            format: default_log_format(),
            include_location: false,
        }
    }
}

impl Default for HealthConfig {
    fn default() -> (r: Self)
        ensures
            r.interval_secs == 30,
            r.port == 8080,
            r.enable_metrics == false,
    {
        HealthConfig {
            interval_secs: default_health_interval(),
            port: default_health_port(),
            enable_metrics: false,
        }
    }
}

/// Configuration validation errors.
#[derive(Debug, Clone, PartialEq)]
pub enum ConfigValidationError {
    /// A required field is absent
    MissingField(String),
    /// A field holds an invalid value
    InvalidValue { field: String, message: String },
}

/// Whether the URL names a stream endpoint: it starts with `rtsp://` or
/// `rtsps://`.
pub open spec fn spec_valid_stream_url(url: Seq<char>) -> bool {
    ||| url.len() >= 7 && url.subrange(0, 7) == "rtsp://"@
    ||| url.len() >= 8 && url.subrange(0, 8) == "rtsps://"@
}

impl IngestConfig {
    /// Whether the configuration passes validation: the URL present and
    /// of the stream scheme, a device id, non-zero frame dimensions and
    /// rate, and an inference endpoint.
    pub open spec fn spec_valid(self) -> bool {
        &&& self.rtsp.url@.len() > 0
        &&& spec_valid_stream_url(self.rtsp.url@)
        &&& self.rtsp.device_id@.len() > 0
        &&& self.processing.target_width > 0
        &&& self.processing.target_height > 0
        &&& self.processing.target_fps_milli > 0
        &&& self.grpc.inference_endpoint@.len() > 0
    }

    /// Validate the configuration; fails exactly on the documented
    /// conditions, naming the offending field.
    pub fn validate(&self) -> (r: Result<(), ConfigValidationError>)
        ensures
            r is Ok <==> self.spec_valid(),
            self.rtsp.url@.len() == 0 ==> (r matches Err(ConfigValidationError::MissingField(f))
                && f@ == "rtsp.url"@),
            self.rtsp.url@.len() > 0 && !spec_valid_stream_url(self.rtsp.url@) ==> (r matches Err(
                ConfigValidationError::InvalidValue { field, .. },
            ) && field@ == "rtsp.url"@),
            self.rtsp.url@.len() > 0 && spec_valid_stream_url(self.rtsp.url@)
                && self.rtsp.device_id@.len() == 0 ==> (r matches Err(
                ConfigValidationError::MissingField(f),
            ) && f@ == "rtsp.device_id"@),
            self.rtsp.url@.len() > 0 && spec_valid_stream_url(self.rtsp.url@)
                && self.rtsp.device_id@.len() > 0 && (self.processing.target_width == 0
                || self.processing.target_height == 0) ==> (r matches Err(
                ConfigValidationError::InvalidValue { field, .. },
            ) && field@ == "processing.target_width/height"@),
            self.rtsp.url@.len() > 0 && spec_valid_stream_url(self.rtsp.url@)
                && self.rtsp.device_id@.len() > 0 && self.processing.target_width > 0
                && self.processing.target_height > 0 && self.processing.target_fps_milli == 0 ==> (
            r matches Err(ConfigValidationError::InvalidValue { field, .. }) && field@
                == "processing.target_fps"@),
            self.rtsp.url@.len() > 0 && spec_valid_stream_url(self.rtsp.url@)
                && self.rtsp.device_id@.len() > 0 && self.processing.target_width > 0
                && self.processing.target_height > 0 && self.processing.target_fps_milli > 0
                && self.grpc.inference_endpoint@.len() == 0 ==> (r matches Err(
                ConfigValidationError::MissingField(f),
            ) && f@ == "grpc.inference_endpoint"@),
    {
        proof {
            reveal_strlit("rtsp://");
            reveal_strlit("rtsps://");
        }
        if self.rtsp.url.as_str().unicode_len() == 0 {
            return Err(ConfigValidationError::MissingField(String::from_str("rtsp.url")));
        }
        if !str_starts_with(self.rtsp.url.as_str(), "rtsp://") && !str_starts_with(
            self.rtsp.url.as_str(),
            "rtsps://",
        ) {
            return Err(
                ConfigValidationError::InvalidValue {
                    field: String::from_str("rtsp.url"),
                    message: String::from_str("URL must start with rtsp:// or rtsps://"),
                },
            );
        }
        if self.rtsp.device_id.as_str().unicode_len() == 0 {
            return Err(ConfigValidationError::MissingField(String::from_str("rtsp.device_id")));
        }
        if self.processing.target_width == 0 || self.processing.target_height == 0 {
            return Err(
                ConfigValidationError::InvalidValue {
                    field: String::from_str("processing.target_width/height"),
                    message: String::from_str("Dimensions must be greater than 0"),
                },
            );
        }
        if self.processing.target_fps_milli == 0 {
            return Err(
                ConfigValidationError::InvalidValue {
                    field: String::from_str("processing.target_fps"),
                    message: String::from_str("FPS must be greater than 0"),
                },
            );
        }
        if self.grpc.inference_endpoint.as_str().unicode_len() == 0 {
            return Err(
                ConfigValidationError::MissingField(String::from_str("grpc.inference_endpoint")),
            );
        }
        Ok(())
    }
}

impl RtspConfig {
    /// Connection timeout in seconds.
    pub fn connection_timeout(&self) -> (r: u64)
        ensures
            r == self.connection_timeout_secs,
    {
        self.connection_timeout_secs
    }

    /// Base reconnection delay in milliseconds.
    pub fn reconnect_base_delay(&self) -> (r: u64)
        ensures
            r == self.reconnect_base_delay_ms,
    {
        self.reconnect_base_delay_ms
    }

    /// Maximum reconnection delay in milliseconds.
    pub fn reconnect_max_delay(&self) -> (r: u64)
        ensures
            r == self.reconnect_max_delay_ms,
    {
        self.reconnect_max_delay_ms
    }
}

impl GrpcConfig {
    /// Request timeout in seconds.
    pub fn request_timeout(&self) -> (r: u64)
        ensures
            r == self.request_timeout_secs,
    {
        self.request_timeout_secs
    }

    /// Connection timeout in seconds.
    pub fn connection_timeout(&self) -> (r: u64)
        ensures
            r == self.connection_timeout_secs,
    {
        self.connection_timeout_secs
    }

    /// Batch timeout in milliseconds.
    pub fn batch_timeout(&self) -> (r: u64)
        ensures
            r == self.batch_timeout_ms,
    {
        self.batch_timeout_ms
    }
}

} // verus!
