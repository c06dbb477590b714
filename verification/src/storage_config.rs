//! Configuration of the storage service.
//!
//! Loading from files and environment stays outside the library; the
//! structures here hold the loaded values, with their documented defaults.

use vstd::prelude::*;

verus! {

/// Top-level configuration of the storage service.
#[derive(Debug, Clone)]
pub struct Config {
    /// Service configuration
    pub service: ServiceConfig,
    /// Message bus configuration
    pub kafka: KafkaConfig,
    /// Object store configuration
    pub s3: S3Config,
    /// Database configuration
    pub database: DatabaseConfig,
    /// Frame selection configuration
    pub frame_selection: FrameSelectionConfig,
    /// API configuration
    pub api: ApiConfig,
}

/// Service-level configuration.
#[derive(Debug, Clone)]
pub struct ServiceConfig {
    /// Service name for logging/metrics
    pub name: String,
    /// Log level (trace, debug, info, warn, error)
    pub log_level: String,
    /// Metrics port
    pub metrics_port: u16,
}

/// Bus consumer configuration of the storage service.
#[derive(Debug, Clone)]
pub struct KafkaConfig {
    /// Broker bootstrap servers
    pub bootstrap_servers: String,
    /// Consumer group ID
    pub consumer_group: String,
    /// Topic for storage trigger events
    pub storage_trigger_topic: String,
    /// Topic for detection events
    pub detections_topic: String,
    /// Enable SSL
    pub ssl_enabled: bool,
    /// SSL CA certificate path
    pub ssl_ca_location: Option<String>,
    /// SASL username
    pub sasl_username: Option<String>,
    /// SASL password
    pub sasl_password: Option<String>,
    /// Auto offset reset policy
    pub auto_offset_reset: String,
    /// Session timeout in milliseconds
    pub session_timeout_ms: u32,
    /// Max poll interval in milliseconds
    pub max_poll_interval_ms: u32,
}

/// Object store configuration.
#[derive(Debug, Clone)]
pub struct S3Config {
    /// Bucket name for frame storage
    pub bucket: String,
    /// Region
    pub region: String,
    /// Custom endpoint URL, for S3-compatible stores
    pub endpoint_url: Option<String>,
    /// Force path-style access
    pub force_path_style: bool,
    /// Signed URL expiration in seconds
    pub presigned_url_expiry_secs: u64,
    /// Upload concurrency limit
    pub upload_concurrency: usize,
    /// Multipart upload threshold in bytes
    pub multipart_threshold_bytes: usize,
    /// Part size for multipart uploads in bytes
    pub part_size_bytes: usize,
}

/// Database configuration.
#[derive(Debug, Clone)]
pub struct DatabaseConfig {
    /// Connection URL
    pub url: String,
    /// Maximum number of connections in the pool
    pub max_connections: u32,
    /// Minimum number of connections in the pool
    pub min_connections: u32,
    /// Connection timeout in seconds
    pub connect_timeout_secs: u64,
    /// Idle connection timeout in seconds
    pub idle_timeout_secs: u64,
    /// Run migrations on startup
    pub run_migrations: bool,
}

/// Frame selection configuration.  The confidence threshold is held in
/// thousandths of its unit-interval value.
#[derive(Debug, Clone)]
pub struct FrameSelectionConfig {
    /// Store frames with detections
    pub store_detections: bool,
    /// Store periodic sample frames
    pub store_samples: bool,
    /// Sample rate: store 1 frame every N frames
    pub sample_rate: u32,
    /// Store frames marked for debug
    pub store_debug: bool,
    /// Minimum confidence for storing detection frames, in thousandths
    pub min_confidence_milli: u32,
    /// Detection types to store (empty = all)
    pub detection_types: Vec<String>,
    /// Maximum frame age in seconds
    pub max_frame_age_secs: u64,
}

/// Configuration of the signed-URL API.
#[derive(Debug, Clone)]
pub struct ApiConfig {
    /// Listen address
    pub host: String,
    /// Listen port
    pub port: u16,
    /// Enable CORS
    pub cors_enabled: bool,
    /// Allowed CORS origins (empty = all)
    pub cors_origins: Vec<String>,
}

pub fn default_service_name() -> (r: String)
    ensures
        r@ == "storage-service"@,
{
    String::from_str("storage-service")
}

pub fn default_log_level() -> (r: String)
    ensures
        r@ == "info"@,
{
    String::from_str("info")
}

pub fn default_metrics_port() -> (r: u16)
    ensures
        r == 9090,
{
    9090
}

pub fn default_consumer_group() -> (r: String)
    ensures
        r@ == "storage-service"@,
{
    String::from_str("storage-service")
}

pub fn default_storage_topic() -> (r: String)
    ensures
        r@ == "nier.storage.triggers"@,
{
    String::from_str("nier.storage.triggers")
}

pub fn default_detections_topic() -> (r: String)
    ensures
        r@ == "nier.detections"@,
{
    String::from_str("nier.detections")
}

pub fn default_auto_offset_reset() -> (r: String)
    ensures
        r@ == "earliest"@,
{
    String::from_str("earliest")
}

pub fn default_session_timeout_ms() -> (r: u32)
    ensures
        r == 30000,
{
    30000
}

pub fn default_max_poll_interval_ms() -> (r: u32)
    ensures
        r == 300000,
{
    300000
}

pub fn default_region() -> (r: String)
    ensures
        r@ == "us-east-1"@,
{
    String::from_str("us-east-1")
}

pub fn default_presigned_url_expiry_secs() -> (r: u64)
    ensures
        r == 3600,
{
    3600
}

pub fn default_upload_concurrency() -> (r: usize)
    ensures
        r == 10,
{
    10
}

pub fn default_multipart_threshold() -> (r: usize)
    ensures
        r == 5 * 1024 * 1024,
{
    5 * 1024 * 1024
}

pub fn default_part_size() -> (r: usize)
    ensures
        r == 5 * 1024 * 1024,
{
    5 * 1024 * 1024
}

pub fn default_max_connections() -> (r: u32)
    ensures
        r == 10,
{
    10
}

pub fn default_min_connections() -> (r: u32)
    ensures
        r == 2,
{
    2
}

pub fn default_connect_timeout_secs() -> (r: u64)
    ensures
        r == 30,
{
    30
}

pub fn default_idle_timeout_secs() -> (r: u64)
    ensures
        r == 600,
{
    600
}

pub fn default_run_migrations() -> (r: bool)
    ensures
        r == true,
{
    true
}

pub fn default_true() -> (r: bool)
    ensures
        r == true,
{
    true
}

/// Store one frame per second at a 30 fps stream.
pub fn default_sample_rate() -> (r: u32)
    ensures
        r == 30,
{
    30
}

/// Half confidence, in thousandths.
pub fn default_min_confidence() -> (r: u32)
    ensures
        r == 500,
{
    500
}

/// Five minutes.
pub fn default_max_frame_age_secs() -> (r: u64)
    ensures
        r == 300,
{
    300
}

pub fn default_api_host() -> (r: String)
    ensures
        r@ == "0.0.0.0"@,
{
    String::from_str("0.0.0.0")
}

pub fn default_api_port() -> (r: u16)
    ensures
        r == 8080,
{
    8080
}

impl Config {
    /// Database connection timeout in seconds.
    pub fn db_connect_timeout(&self) -> (r: u64)
        ensures
            r == self.database.connect_timeout_secs,
    {
        self.database.connect_timeout_secs
    }

    /// Database idle timeout in seconds.
    pub fn db_idle_timeout(&self) -> (r: u64)
        ensures
            r == self.database.idle_timeout_secs,
    {
        self.database.idle_timeout_secs
    }

    /// Signed URL expiry in seconds.
    pub fn presigned_url_expiry(&self) -> (r: u64)
        ensures
            r == self.s3.presigned_url_expiry_secs,
    {
        self.s3.presigned_url_expiry_secs
    }

    /// Maximum frame age in seconds.
    pub fn max_frame_age(&self) -> (r: u64)
        ensures
            r == self.frame_selection.max_frame_age_secs,
    {
        self.frame_selection.max_frame_age_secs
    }
}

impl Default for ServiceConfig {
    fn default() -> (r: Self)
        ensures
            r.name@ == "storage-service"@,
            r.log_level@ == "info"@,
            r.metrics_port == 9090,
    {
        ServiceConfig {
            name: default_service_name(),
            log_level: default_log_level(),
            metrics_port: default_metrics_port(),
        }
    }
}

} // verus!
