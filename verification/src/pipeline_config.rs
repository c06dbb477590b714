//! Configuration of the messaging layer: broker connection, security,
//! reliability, producer, consumer and topic settings, and the client
//! property lists built from them.
//!
//! The broker client itself consumes flat `key=value` property lists;
//! those lists are built and specified here, and the unverified side
//! only copies them over.

use vstd::prelude::*;
use crate::strutil::{append_u64, spec_u64_dec};

verus! {

/// Errors of configuration handling.
#[derive(Debug, Clone, PartialEq)]
pub enum ConfigError {
    /// A required setting is absent
    MissingRequired(String),
    /// A setting holds an invalid value
    InvalidValue { key: String, message: String },
    /// The configuration could not be loaded
    LoadError(String),
}

/// Security protocol of the broker connection.
#[derive(Debug, Clone, Copy, PartialEq, Eq, Structural)]
pub enum SecurityProtocol {
    Plaintext,
    Ssl,
    SaslPlaintext,
    SaslSsl,
}

impl SecurityProtocol {
    pub open spec fn spec_str(self) -> Seq<char> {
        match self {
            SecurityProtocol::Plaintext => "plaintext"@,
            SecurityProtocol::Ssl => "ssl"@,
            SecurityProtocol::SaslPlaintext => "sasl_plaintext"@,
            SecurityProtocol::SaslSsl => "sasl_ssl"@,
        }
    }

    pub fn as_str(&self) -> (r: &'static str)
        ensures
            r@ == self.spec_str(),
    {
        match self {
            SecurityProtocol::Plaintext => "plaintext",
            SecurityProtocol::Ssl => "ssl",
            SecurityProtocol::SaslPlaintext => "sasl_plaintext",
            SecurityProtocol::SaslSsl => "sasl_ssl",
        }
    }

    /// Whether the protocol authenticates over SASL.
    pub open spec fn spec_is_sasl(self) -> bool {
        self == SecurityProtocol::SaslPlaintext || self == SecurityProtocol::SaslSsl
    }
}

impl Default for SecurityProtocol {
    fn default() -> (r: Self)
        ensures
            r == SecurityProtocol::Plaintext,
    {
        SecurityProtocol::Plaintext
    }
}

/// SASL mechanism for authentication.
#[derive(Debug, Clone, Copy, PartialEq, Eq, Structural)]
pub enum SaslMechanism {
    Plain,
    ScramSha256,
    ScramSha512,
    OAuthBearer,
}

impl SaslMechanism {
    pub open spec fn spec_str(self) -> Seq<char> {
        match self {
            SaslMechanism::Plain => "PLAIN"@,
            SaslMechanism::ScramSha256 => "SCRAM-SHA-256"@,
            SaslMechanism::ScramSha512 => "SCRAM-SHA-512"@,
            SaslMechanism::OAuthBearer => "OAUTHBEARER"@,
        }
    }

    pub fn as_str(&self) -> (r: &'static str)
        ensures
            r@ == self.spec_str(),
    {
        match self {
            SaslMechanism::Plain => "PLAIN",
            SaslMechanism::ScramSha256 => "SCRAM-SHA-256",
            SaslMechanism::ScramSha512 => "SCRAM-SHA-512",
            SaslMechanism::OAuthBearer => "OAUTHBEARER",
        }
    }
}

impl Default for SaslMechanism {
    fn default() -> (r: Self)
        ensures
            r == SaslMechanism::Plain,
    {
        SaslMechanism::Plain
    }
}

/// SSL/TLS configuration.
#[derive(Debug, Clone)]
pub struct SslConfig {
    /// Path to the CA certificate file
    pub ca_location: Option<String>,
    /// Path to the client certificate file
    pub certificate_location: Option<String>,
    /// Path to the client private key file
    pub key_location: Option<String>,
    /// Private key password
    pub key_password: Option<String>,
    /// Verify the broker certificate
    pub enable_verification: bool,
}

impl Default for SslConfig {
    fn default() -> (r: Self)
        ensures
            r.ca_location is None,
            r.certificate_location is None,
            r.key_location is None,
            r.key_password is None,
            r.enable_verification == true,
    {
        SslConfig {
            ca_location: None,
            certificate_location: None,
            key_location: None,
            key_password: None,
            enable_verification: true,
        }
    }
}

/// SASL authentication configuration.
#[derive(Debug, Clone)]
pub struct SaslConfig {
    pub mechanism: SaslMechanism,
    pub username: Option<String>,
    pub password: Option<String>,
    /// Bearer token for the OAuth mechanism
    pub oauth_token: Option<String>,
}

impl Default for SaslConfig {
    fn default() -> (r: Self)
        ensures
            r.mechanism == SaslMechanism::Plain,
            r.username is None,
            r.password is None,
            r.oauth_token is None,
    {
        SaslConfig { mechanism: SaslMechanism::Plain, username: None, password: None, oauth_token: None }
    }
}

/// Retry and reliability configuration.
#[derive(Debug, Clone)]
pub struct ReliabilityConfig {
    /// Retries for failed operations
    pub retries: u32,
    /// Retry backoff in milliseconds
    pub retry_backoff_ms: u64,
    /// Request timeout in milliseconds
    pub request_timeout_ms: u64,
    /// Enable the idempotent producer
    pub enable_idempotence: bool,
    /// Required acknowledgments: `0`, `1` or `all`
    pub acks: String,
}

pub fn default_retries() -> (r: u32)
    ensures
        r == 3,
{
    3
}

pub fn default_retry_backoff_ms() -> (r: u64)
    ensures
        r == 100,
{
    100
}

pub fn default_request_timeout_ms() -> (r: u64)
    ensures
        r == 30000,
{
    30000
}

pub fn default_acks() -> (r: String)
    ensures
        r@ == "all"@,
{
    String::from_str("all")
}

pub fn default_true() -> (r: bool)
    ensures
        r == true,
{
    true
}

impl Default for ReliabilityConfig {
    fn default() -> (r: Self)
        ensures
            r.retries == 3,
            r.retry_backoff_ms == 100,
            r.request_timeout_ms == 30000,
            r.enable_idempotence == true,
            r.acks@ == "all"@,
    {
        ReliabilityConfig {
            retries: default_retries(),
            retry_backoff_ms: default_retry_backoff_ms(),
            request_timeout_ms: default_request_timeout_ms(),
            enable_idempotence: true,
            acks: default_acks(),
        }
    }
}

/// Producer-specific configuration.
#[derive(Debug, Clone)]
pub struct ProducerConfig {
    /// Batch size in bytes
    pub batch_size: usize,
    /// Linger time in milliseconds
    pub linger_ms: u64,
    /// Compression: none, gzip, snappy, lz4, zstd
    pub compression_type: String,
    /// Maximum in-flight requests per connection
    pub max_in_flight_requests: u32,
}

pub fn default_batch_size() -> (r: usize)
    ensures
        r == 16384,
{
    16384
}

pub fn default_linger_ms() -> (r: u64)
    ensures
        r == 5,
{
    5
}

pub fn default_compression() -> (r: String)
    ensures
        r@ == "lz4"@,
{
    String::from_str("lz4")
}

pub fn default_max_in_flight() -> (r: u32)
    ensures
        r == 5,
{
    5
}

impl Default for ProducerConfig {
    fn default() -> (r: Self)
        ensures
            r.batch_size == 16384,
            r.linger_ms == 5,
            r.compression_type@ == "lz4"@,
            r.max_in_flight_requests == 5,
    {
        ProducerConfig {
            batch_size: default_batch_size(),
            linger_ms: default_linger_ms(),
            compression_type: default_compression(),
            max_in_flight_requests: default_max_in_flight(),
        }
    }
}

/// Consumer-specific configuration.
#[derive(Debug, Clone)]
pub struct ConsumerConfig {
    /// Consumer group ID
    pub group_id: String,
    /// Auto offset reset: earliest, latest, none
    pub auto_offset_reset: String,
    /// Enable auto commit
    pub enable_auto_commit: bool,
    /// Auto commit interval in milliseconds
    pub auto_commit_interval_ms: u64,
    /// Session timeout in milliseconds
    pub session_timeout_ms: u64,
    /// Heartbeat interval in milliseconds
    pub heartbeat_interval_ms: u64,
    /// Maximum poll interval in milliseconds
    pub max_poll_interval_ms: u64,
    /// Maximum records per poll
    pub max_poll_records: u32,
}

pub fn default_auto_offset_reset() -> (r: String)
    ensures
        r@ == "earliest"@,
{
    String::from_str("earliest")
}

pub fn default_auto_commit_interval() -> (r: u64)
    ensures
        r == 5000,
{
    5000
}

pub fn default_session_timeout() -> (r: u64)
    ensures
        r == 30000,
{
    30000
}

pub fn default_heartbeat_interval() -> (r: u64)
    ensures
        r == 3000,
{
    3000
}

pub fn default_max_poll_interval() -> (r: u64)
    ensures
        r == 300000,
{
    300000
}

pub fn default_max_poll_records() -> (r: u32)
    ensures
        r == 500,
{
    500
}

impl Default for ConsumerConfig {
    fn default() -> (r: Self)
        ensures
            r.group_id@ == "nier-pipeline"@,
            r.auto_offset_reset@ == "earliest"@,
            r.enable_auto_commit == false,
            r.auto_commit_interval_ms == 5000,
            r.session_timeout_ms == 30000,
            r.heartbeat_interval_ms == 3000,
            r.max_poll_interval_ms == 300000,
            r.max_poll_records == 500,
    {
        ConsumerConfig {
            group_id: String::from_str("nier-pipeline"),
            auto_offset_reset: default_auto_offset_reset(),
            enable_auto_commit: false,
            auto_commit_interval_ms: default_auto_commit_interval(),
            session_timeout_ms: default_session_timeout(),
            heartbeat_interval_ms: default_heartbeat_interval(),
            max_poll_interval_ms: default_max_poll_interval(),
            max_poll_records: default_max_poll_records(),
        }
    }
}

/// Topics of the pipeline.
#[derive(Debug, Clone)]
pub struct TopicConfig {
    /// Topic for raw frame metadata
    pub frames: String,
    /// Topic for detection events
    pub detections: String,
    /// Topic for safety alerts
    pub alerts: String,
    /// Dead letter queue topic
    pub dead_letter_queue: String,
}

pub fn default_frames_topic() -> (r: String)
    ensures
        r@ == "nier.frames"@,
{
    String::from_str("nier.frames")
}

pub fn default_detections_topic() -> (r: String)
    ensures
        r@ == "nier.detections"@,
{
    String::from_str("nier.detections")
}

pub fn default_alerts_topic() -> (r: String)
    ensures
        r@ == "nier.alerts"@,
{
    String::from_str("nier.alerts")
}

pub fn default_dlq_topic() -> (r: String)
    ensures
        r@ == "nier.dlq"@,
{
    String::from_str("nier.dlq")
}

impl Default for TopicConfig {
    fn default() -> (r: Self)
        ensures
            r.frames@ == "nier.frames"@,
            r.detections@ == "nier.detections"@,
            r.alerts@ == "nier.alerts"@,
            r.dead_letter_queue@ == "nier.dlq"@,
    {
        TopicConfig {
            frames: default_frames_topic(),
            detections: default_detections_topic(),
            alerts: default_alerts_topic(),
            dead_letter_queue: default_dlq_topic(),
        }
    }
}

/// Main configuration of the messaging layer.
#[derive(Debug, Clone)]
pub struct KafkaConfig {
    /// Comma-separated broker addresses
    pub bootstrap_servers: String,
    /// Client ID of this connection
    pub client_id: String,
    /// Security protocol
    pub security_protocol: SecurityProtocol,
    /// SSL settings
    pub ssl: SslConfig,
    /// SASL settings
    pub sasl: SaslConfig,
    /// Reliability settings
    pub reliability: ReliabilityConfig,
    /// Producer settings
    pub producer: ProducerConfig,
    /// Consumer settings
    pub consumer: ConsumerConfig,
    /// Topic names
    pub topics: TopicConfig,
    /// Additional broker properties
    pub extra_properties: Vec<(String, String)>,
}

pub fn default_client_id() -> (r: String)
    ensures
        r@ == "nier-pipeline"@,
{
    String::from_str("nier-pipeline")
}

impl Default for KafkaConfig {
    fn default() -> (r: Self)
        ensures
            r.bootstrap_servers@ == "localhost:9092"@,
            r.client_id@ == "nier-pipeline"@,
            r.security_protocol == SecurityProtocol::Plaintext,
            r.ssl.ca_location is None,
            r.ssl.certificate_location is None,
            r.ssl.key_location is None,
            r.ssl.key_password is None,
            r.ssl.enable_verification == true,
            r.sasl.mechanism == SaslMechanism::Plain,
            r.sasl.username is None,
            r.sasl.password is None,
            r.sasl.oauth_token is None,
            r.reliability.retries == 3,
            r.reliability.retry_backoff_ms == 100,
            r.reliability.request_timeout_ms == 30000,
            r.reliability.enable_idempotence == true,
            r.reliability.acks@ == "all"@,
            r.producer.batch_size == 16384,
            r.producer.linger_ms == 5,
            r.producer.compression_type@ == "lz4"@,
            r.producer.max_in_flight_requests == 5,
            r.consumer.group_id@ == "nier-pipeline"@,
            r.consumer.auto_offset_reset@ == "earliest"@,
            r.consumer.enable_auto_commit == false,
            r.consumer.auto_commit_interval_ms == 5000,
            r.consumer.session_timeout_ms == 30000,
            r.consumer.heartbeat_interval_ms == 3000,
            r.consumer.max_poll_interval_ms == 300000,
            r.consumer.max_poll_records == 500,
            r.topics.frames@ == "nier.frames"@,
            r.topics.detections@ == "nier.detections"@,
            r.topics.alerts@ == "nier.alerts"@,
            r.topics.dead_letter_queue@ == "nier.dlq"@,
            r.extra_properties@.len() == 0,
    {
        KafkaConfig {
            bootstrap_servers: String::from_str("localhost:9092"),
            client_id: default_client_id(),
            security_protocol: SecurityProtocol::default(),
            ssl: SslConfig::default(),
            sasl: SaslConfig::default(),
            reliability: ReliabilityConfig::default(),
            producer: ProducerConfig::default(),
            consumer: ConsumerConfig::default(),
            topics: TopicConfig::default(),
            extra_properties: Vec::new(),
        }
    }
}

/// A flat broker property list, in insertion order.
#[derive(Debug, Clone)]
pub struct ClientProperties {
    /// Property names and values, in order
    pub entries: Vec<(String, String)>,
}

impl ClientProperties {
    /// First value set under `key`.
    pub fn get<'a>(&'a self, key: &str) -> (r: Option<&'a String>)
        ensures
            match r {
                Some(v) => crate::events::spec_map_get(self.entries@, key@) == Some(v@),
                None => crate::events::spec_map_get(self.entries@, key@) is None,
            },
    {
        crate::events::map_get(&self.entries, key)
    }
}

/// The text of a boolean property value.
pub open spec fn spec_bool_str(b: bool) -> Seq<char> {
    if b {
        "true"@
    } else {
        "false"@
    }
}

/// The views of a property list.
pub open spec fn props_view(entries: Seq<(String, String)>) -> Seq<(Seq<char>, Seq<char>)> {
    entries.map_values(|p: (String, String)| (p.0@, p.1@))
}

/// The base properties shared by producers and consumers: connection,
/// security, SSL and SASL settings, then the extra properties, in order.
pub open spec fn spec_base_props(c: KafkaConfig) -> Seq<(Seq<char>, Seq<char>)> {
    let s0 = seq![
        ("bootstrap.servers"@, c.bootstrap_servers@),
        ("client.id"@, c.client_id@),
        ("security.protocol"@, c.security_protocol.spec_str()),
    ];
    let s1 = if c.ssl.ca_location is Some {
        s0 + seq![("ssl.ca.location"@, c.ssl.ca_location.unwrap()@)]
    } else {
        s0
    };
    let s2 = if c.ssl.certificate_location is Some {
        s1 + seq![("ssl.certificate.location"@, c.ssl.certificate_location.unwrap()@)]
    } else {
        s1
    };
    let s3 = if c.ssl.key_location is Some {
        s2 + seq![("ssl.key.location"@, c.ssl.key_location.unwrap()@)]
    } else {
        s2
    };
    let s4 = if c.ssl.key_password is Some {
        s3 + seq![("ssl.key.password"@, c.ssl.key_password.unwrap()@)]
    } else {
        s3
    };
    let s5 = if !c.ssl.enable_verification {
        s4 + seq![("enable.ssl.certificate.verification"@, "false"@)]
    } else {
        s4
    };
    let s6 = s5 + seq![("sasl.mechanism"@, c.sasl.mechanism.spec_str())];
    let s7 = if c.sasl.username is Some {
        s6 + seq![("sasl.username"@, c.sasl.username.unwrap()@)]
    } else {
        s6
    };
    let s8 = if c.sasl.password is Some {
        s7 + seq![("sasl.password"@, c.sasl.password.unwrap()@)]
    } else {
        s7
    };
    s8 + props_view(c.extra_properties@)
}

/// The producer property list: the base properties, the reliability
/// settings, and the producer settings, in order.
pub open spec fn spec_producer_props(c: KafkaConfig) -> Seq<(Seq<char>, Seq<char>)> {
    let s0 = spec_base_props(c) + seq![
        ("retries"@, spec_u64_dec(c.reliability.retries as int)),
        ("retry.backoff.ms"@, spec_u64_dec(c.reliability.retry_backoff_ms as int)),
        ("request.timeout.ms"@, spec_u64_dec(c.reliability.request_timeout_ms as int)),
        ("acks"@, c.reliability.acks@),
    ];
    let s1 = if c.reliability.enable_idempotence {
        s0 + seq![("enable.idempotence"@, "true"@)]
    } else {
        s0
    };
    s1 + seq![
        ("batch.size"@, spec_u64_dec(c.producer.batch_size as int)),
        ("linger.ms"@, spec_u64_dec(c.producer.linger_ms as int)),
        ("compression.type"@, c.producer.compression_type@),
        (
            "max.in.flight.requests.per.connection"@,
            spec_u64_dec(c.producer.max_in_flight_requests as int),
        ),
    ]
}

/// The consumer property list: the base properties and the consumer
/// settings, in order.
pub open spec fn spec_consumer_props(c: KafkaConfig) -> Seq<(Seq<char>, Seq<char>)> {
    spec_base_props(c) + seq![
        ("group.id"@, c.consumer.group_id@),
        ("auto.offset.reset"@, c.consumer.auto_offset_reset@),
        ("enable.auto.commit"@, spec_bool_str(c.consumer.enable_auto_commit)),
        ("auto.commit.interval.ms"@, spec_u64_dec(c.consumer.auto_commit_interval_ms as int)),
        ("session.timeout.ms"@, spec_u64_dec(c.consumer.session_timeout_ms as int)),
        ("heartbeat.interval.ms"@, spec_u64_dec(c.consumer.heartbeat_interval_ms as int)),
        ("max.poll.interval.ms"@, spec_u64_dec(c.consumer.max_poll_interval_ms as int)),
    ]
}

impl KafkaConfig {
    /// A configuration for the given brokers, everything else at its
    /// default.
    pub fn new(bootstrap_servers: String) -> (r: Self)
        ensures
            r.bootstrap_servers@ == bootstrap_servers@,
            r.client_id@ == "nier-pipeline"@,
            r.security_protocol == SecurityProtocol::Plaintext,
            r.ssl.ca_location is None,
            r.ssl.certificate_location is None,
            r.ssl.key_location is None,
            r.ssl.key_password is None,
            r.ssl.enable_verification == true,
            r.sasl.mechanism == SaslMechanism::Plain,
            r.sasl.username is None,
            r.sasl.password is None,
            r.sasl.oauth_token is None,
            r.reliability.retries == 3,
            r.reliability.retry_backoff_ms == 100,
            r.reliability.request_timeout_ms == 30000,
            r.reliability.enable_idempotence == true,
            r.reliability.acks@ == "all"@,
            r.producer.batch_size == 16384,
            r.producer.linger_ms == 5,
            r.producer.compression_type@ == "lz4"@,
            r.producer.max_in_flight_requests == 5,
            r.consumer.group_id@ == "nier-pipeline"@,
            r.consumer.auto_offset_reset@ == "earliest"@,
            r.consumer.enable_auto_commit == false,
            r.consumer.auto_commit_interval_ms == 5000,
            r.consumer.session_timeout_ms == 30000,
            r.consumer.heartbeat_interval_ms == 3000,
            r.consumer.max_poll_interval_ms == 300000,
            r.consumer.max_poll_records == 500,
            r.topics.frames@ == "nier.frames"@,
            r.topics.detections@ == "nier.detections"@,
            r.topics.alerts@ == "nier.alerts"@,
            r.topics.dead_letter_queue@ == "nier.dlq"@,
            r.extra_properties@.len() == 0,
    {
        let mut c = KafkaConfig::default();
        c.bootstrap_servers = bootstrap_servers;
        c
    }

    /// Request timeout in milliseconds.
    pub fn request_timeout(&self) -> (r: u64)
        ensures
            r == self.reliability.request_timeout_ms,
    {
        self.reliability.request_timeout_ms
    }

    /// Validate the configuration: the broker list must be set, and a
    /// SASL protocol needs a username.
    pub fn validate(&self) -> (r: Result<(), ConfigError>)
        ensures
            r is Ok <==> (self.bootstrap_servers@.len() > 0 && (
            self.security_protocol.spec_is_sasl() ==> self.sasl.username is Some)),
            self.bootstrap_servers@.len() == 0 ==> (r matches Err(
                ConfigError::MissingRequired(m),
            ) && m@ == "bootstrap_servers"@),
            self.bootstrap_servers@.len() > 0 && self.security_protocol.spec_is_sasl()
                && self.sasl.username is None ==> (r matches Err(
                ConfigError::MissingRequired(m),
            ) && m@ == "sasl.username (required for SASL)"@),
    {
        if self.bootstrap_servers.as_str().unicode_len() == 0 {
            return Err(ConfigError::MissingRequired(String::from_str("bootstrap_servers")));
        }
        match self.security_protocol {
            SecurityProtocol::SaslPlaintext | SecurityProtocol::SaslSsl => {
                if self.sasl.username.is_none() {
                    return Err(
                        ConfigError::MissingRequired(
                            String::from_str("sasl.username (required for SASL)"),
                        ),
                    );
                }
            },
            _ => {},
        }
        Ok(())
    }

    /// The base property list shared by producers and consumers.
    #[verifier::rlimit(60)]
    fn build_base_config(&self) -> (r: ClientProperties)
        ensures
            props_view(r.entries@) == spec_base_props(*self),
    {
        let mut entries: Vec<(String, String)> = Vec::new();
        entries.push((String::from_str("bootstrap.servers"), self.bootstrap_servers.clone()));
        entries.push((String::from_str("client.id"), self.client_id.clone()));
        entries.push(
            (String::from_str("security.protocol"), String::from_str(
                self.security_protocol.as_str(),
            )),
        );
        match &self.ssl.ca_location {
            Some(ca) => {
                entries.push((String::from_str("ssl.ca.location"), ca.clone()));
            },
            None => {},
        }
        match &self.ssl.certificate_location {
            Some(cert) => {
                entries.push((String::from_str("ssl.certificate.location"), cert.clone()));
            },
            None => {},
        }
        match &self.ssl.key_location {
            Some(k) => {
                entries.push((String::from_str("ssl.key.location"), k.clone()));
            },
            None => {},
        }
        match &self.ssl.key_password {
            Some(p) => {
                entries.push((String::from_str("ssl.key.password"), p.clone()));
            },
            None => {},
        }
        if !self.ssl.enable_verification {
            entries.push(
                (String::from_str("enable.ssl.certificate.verification"), String::from_str(
                    "false",
                )),
            );
        }
        entries.push(
            (String::from_str("sasl.mechanism"), String::from_str(self.sasl.mechanism.as_str())),
        );
        match &self.sasl.username {
            Some(u) => {
                entries.push((String::from_str("sasl.username"), u.clone()));
            },
            None => {},
        }
        match &self.sasl.password {
            Some(p) => {
                entries.push((String::from_str("sasl.password"), p.clone()));
            },
            None => {},
        }
        let mut i: usize = 0;
        let ghost before = entries@;
        while i < self.extra_properties.len()
            invariant
                i <= self.extra_properties@.len(),
                entries@ == before + self.extra_properties@.take(i as int),
            decreases self.extra_properties@.len() - i,
        {
            entries.push(
                (self.extra_properties[i].0.clone(), self.extra_properties[i].1.clone()),
            );
            proof {
                assert(before + self.extra_properties@.take(i + 1int) =~= (before
                    + self.extra_properties@.take(i as int)).push(
                    self.extra_properties@[i as int],
                ));
            }
            i = i + 1;
        }
        proof {
            assert(self.extra_properties@.take(self.extra_properties@.len() as int)
                =~= self.extra_properties@);
            assert(props_view(entries@) =~= spec_base_props(*self));
        }
        ClientProperties { entries }
    }

    /// The property list of a producer.
    pub fn build_producer_config(&self) -> (r: ClientProperties)
        ensures
            props_view(r.entries@) == spec_producer_props(*self),
    {
        let mut props = self.build_base_config();
        let mut v = String::new();
        append_u64(&mut v, self.reliability.retries as u64);
        props.entries.push((String::from_str("retries"), v));
        let mut v = String::new();
        append_u64(&mut v, self.reliability.retry_backoff_ms);
        props.entries.push((String::from_str("retry.backoff.ms"), v));
        let mut v = String::new();
        append_u64(&mut v, self.reliability.request_timeout_ms);
        props.entries.push((String::from_str("request.timeout.ms"), v));
        props.entries.push((String::from_str("acks"), self.reliability.acks.clone()));
        if self.reliability.enable_idempotence {
            props.entries.push(
                (String::from_str("enable.idempotence"), String::from_str("true")),
            );
        }
        let mut v = String::new();
        append_u64(&mut v, self.producer.batch_size as u64);
        props.entries.push((String::from_str("batch.size"), v));
        let mut v = String::new();
        append_u64(&mut v, self.producer.linger_ms);
        props.entries.push((String::from_str("linger.ms"), v));
        props.entries.push(
            (String::from_str("compression.type"), self.producer.compression_type.clone()),
        );
        let mut v = String::new();
        append_u64(&mut v, self.producer.max_in_flight_requests as u64);
        props.entries.push(
            (String::from_str("max.in.flight.requests.per.connection"), v),
        );
        proof {
            assert(props_view(props.entries@) =~= spec_producer_props(*self));
        }
        props
    }

    /// The property list of a consumer.
    pub fn build_consumer_config(&self) -> (r: ClientProperties)
        ensures
            props_view(r.entries@) == spec_consumer_props(*self),
    {
        let mut props = self.build_base_config();
        props.entries.push((String::from_str("group.id"), self.consumer.group_id.clone()));
        props.entries.push(
            (String::from_str("auto.offset.reset"), self.consumer.auto_offset_reset.clone()),
        );
        props.entries.push(
            (String::from_str("enable.auto.commit"), String::from_str(
                if self.consumer.enable_auto_commit {
                    "true"
                } else {
                    "false"
                },
            )),
        );
        let mut v = String::new();
        append_u64(&mut v, self.consumer.auto_commit_interval_ms);
        props.entries.push((String::from_str("auto.commit.interval.ms"), v));
        let mut v = String::new();
        append_u64(&mut v, self.consumer.session_timeout_ms);
        props.entries.push((String::from_str("session.timeout.ms"), v));
        let mut v = String::new();
        append_u64(&mut v, self.consumer.heartbeat_interval_ms);
        props.entries.push((String::from_str("heartbeat.interval.ms"), v));
        let mut v = String::new();
        append_u64(&mut v, self.consumer.max_poll_interval_ms);
        props.entries.push((String::from_str("max.poll.interval.ms"), v));
        proof {
            assert(props_view(props.entries@) =~= spec_consumer_props(*self));
        }
        props
    }
}

} // verus!
