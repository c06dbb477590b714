//! Typed messages of the reliable messaging layer: outgoing messages and
//! their builders, incoming messages with their metadata, the dead-letter
//! envelope, and the consumer's dispatch decision.
//!
//! Producing to and consuming from the broker is I/O and stays outside
//! the library; it sends and receives exactly the values built here.

use vstd::prelude::*;
use crate::b64::{base64_encode, spec_b64};
use crate::codec::spec_quote;
use crate::datetime::UtcDateTime;
use crate::events::{spec_is_uuid_text, spec_map_get, map_get};
use crate::strutil::push_char;

verus! {

/// Errors of message production.
#[derive(Debug, Clone, PartialEq)]
pub enum ProducerError {
    /// Failed to create the producer
    CreationError(String),
    /// Failed to serialize the message
    SerializationError(String),
    /// Failed to send the message to the topic
    SendError { topic: String, message: String },
    /// The producer timed out after the given number of milliseconds
    Timeout(u64),
    /// The producer is not connected
    NotConnected,
}

impl ProducerError {
    /// The error text, as the error formats itself.
    pub fn message(&self) -> (r: String)
        ensures
            r@ == match *self {
                ProducerError::CreationError(m) => "Failed to create producer: "@ + m@,
                ProducerError::SerializationError(m) => "Failed to serialize message: "@ + m@,
                ProducerError::SendError { topic, message } => "Failed to send message to topic "@
                    + topic@ + ": "@ + message@,
                ProducerError::Timeout(ms) => "Producer timeout after "@
                    + crate::strutil::spec_u64_dec(ms as int) + "ms"@,
                ProducerError::NotConnected => "Producer is not connected"@,
            },
    {
        match self {
            ProducerError::CreationError(m) => {
                let mut out = String::from_str("Failed to create producer: ");
                out.append(m.as_str());
                proof {
                    assert(out@ =~= "Failed to create producer: "@ + m@);
                }
                out
            },
            ProducerError::SerializationError(m) => {
                let mut out = String::from_str("Failed to serialize message: ");
                out.append(m.as_str());
                proof {
                    assert(out@ =~= "Failed to serialize message: "@ + m@);
                }
                out
            },
            ProducerError::SendError { topic, message } => {
                let mut out = String::from_str("Failed to send message to topic ");
                out.append(topic.as_str());
                out.append(": ");
                out.append(message.as_str());
                proof {
                    assert(out@ =~= "Failed to send message to topic "@ + topic@ + ": "@
                        + message@);
                }
                out
            },
            ProducerError::Timeout(ms) => {
                let mut out = String::from_str("Producer timeout after ");
                crate::strutil::append_u64(&mut out, *ms);
                out.append("ms");
                proof {
                    assert(out@ =~= "Producer timeout after "@ + crate::strutil::spec_u64_dec(
                        *ms as int,
                    ) + "ms"@);
                }
                out
            },
            ProducerError::NotConnected => String::from_str("Producer is not connected"),
        }
    }
}

/// Errors of message consumption.
#[derive(Debug, Clone, PartialEq)]
pub enum ConsumerError {
    /// Failed to create the consumer
    CreationError(String),
    /// Failed to subscribe to the topics
    SubscriptionError(String),
    /// Failed to deserialize the message
    DeserializationError(String),
    /// Failed to commit an offset
    CommitError(String),
    /// A poll error
    PollError(String),
    /// The handler failed to process the message
    ProcessingError(String),
    /// The consumer is shutting down
    Shutdown,
}

impl ConsumerError {
    /// The error text, as the error formats itself.
    pub fn message(&self) -> (r: String)
        ensures
            r@ == match *self {
                ConsumerError::CreationError(m) => "Failed to create consumer: "@ + m@,
                ConsumerError::SubscriptionError(m) => "Failed to subscribe to topics: "@ + m@,
                ConsumerError::DeserializationError(m) => "Failed to deserialize message: "@ + m@,
                ConsumerError::CommitError(m) => "Failed to commit offset: "@ + m@,
                ConsumerError::PollError(m) => "Consumer poll error: "@ + m@,
                ConsumerError::ProcessingError(m) => "Message processing error: "@ + m@,
                ConsumerError::Shutdown => "Consumer shutdown"@,
            },
    {
        match self {
            ConsumerError::CreationError(m) => prefixed("Failed to create consumer: ", m),
            ConsumerError::SubscriptionError(m) => prefixed("Failed to subscribe to topics: ", m),
            ConsumerError::DeserializationError(m) => prefixed(
                "Failed to deserialize message: ",
                m,
            ),
            ConsumerError::CommitError(m) => prefixed("Failed to commit offset: ", m),
            ConsumerError::PollError(m) => prefixed("Consumer poll error: ", m),
            ConsumerError::ProcessingError(m) => prefixed("Message processing error: ", m),
            ConsumerError::Shutdown => String::from_str("Consumer shutdown"),
        }
    }
}

/// A prefix followed by detail text.
fn prefixed(prefix: &str, detail: &String) -> (r: String)
    ensures
        r@ == prefix@ + detail@,
{
    let mut out: String = prefix.to_owned();
    out.append(detail.as_str());
    out
}

/// Result of one successful delivery.
#[derive(Debug, Clone, PartialEq)]
pub struct DeliveryResult {
    /// Topic the message was delivered to
    pub topic: String,
    /// Partition the message was delivered to
    pub partition: i32,
    /// Offset of the message in the partition
    pub offset: i64,
    /// Message key, when one was set
    pub key: Option<String>,
}

/// A message to be published.
#[derive(Debug, Clone)]
pub struct OutgoingMessage {
    /// Topic to send to
    pub topic: String,
    /// Optional key for partitioning
    pub key: Option<String>,
    /// Serialized payload
    pub payload: Vec<u8>,
    /// Header names and values, in order
    pub headers: Vec<(String, String)>,
}

impl OutgoingMessage {
    /// A bare message: a topic and a payload, no key, no headers.
    pub fn new(topic: String, payload: Vec<u8>) -> (r: Self)
        ensures
            r.topic@ == topic@,
            r.key is None,
            r.payload@ == payload@,
            r.headers@.len() == 0,
    {
        OutgoingMessage { topic, key: None, payload, headers: Vec::new() }
    }

    /// Set the message key.
    pub fn with_key(self, key: String) -> (r: Self)
        ensures
            r.topic == self.topic,
            r.key == Some(key),
            r.payload == self.payload,
            r.headers == self.headers,
    {
        OutgoingMessage { key: Some(key), ..self }
    }

    /// Add a header.
    pub fn with_header(self, key: String, value: String) -> (r: Self)
        ensures
            r.topic == self.topic,
            r.key == self.key,
            r.payload == self.payload,
            r.headers@ == self.headers@.push((key, value)),
    {
        let mut headers = self.headers;
        headers.push((key, value));
        OutgoingMessage { headers, ..self }
    }

    /// Add a correlation-id header.
    pub fn with_correlation_id(self, id: String) -> (r: Self)
        ensures
            r.topic == self.topic,
            r.key == self.key,
            r.payload == self.payload,
            r.headers@.len() == self.headers@.len() + 1,
            r.headers@.last().0@ == "correlation-id"@,
            r.headers@.last().1 == id,
            r.headers@.drop_last() == self.headers@,
    {
        let r = self.with_header(String::from_str("correlation-id"), id);
        proof {
            assert(r.headers@.drop_last() =~= self.headers@);
        }
        r
    }

    /// Add a message-type header.
    pub fn with_message_type(self, msg_type: String) -> (r: Self)
        ensures
            r.topic == self.topic,
            r.key == self.key,
            r.payload == self.payload,
            r.headers@.len() == self.headers@.len() + 1,
            r.headers@.last().0@ == "message-type"@,
            r.headers@.last().1 == msg_type,
            r.headers@.drop_last() == self.headers@,
    {
        let r = self.with_header(String::from_str("message-type"), msg_type);
        proof {
            assert(r.headers@.drop_last() =~= self.headers@);
        }
        r
    }
}

/// Metadata of a received message.
#[derive(Debug, Clone)]
pub struct MessageMetadata {
    /// Topic the message came from
    pub topic: String,
    /// Partition the message came from
    pub partition: i32,
    /// Offset of the message in the partition
    pub offset: i64,
    /// Message key, when present
    pub key: Option<Vec<u8>>,
    /// Broker timestamp in milliseconds, when present
    pub timestamp: Option<i64>,
    /// Header names and values, in order
    pub headers: Vec<(String, String)>,
}

/// A received message: the payload and its metadata.
#[derive(Debug, Clone)]
pub struct IncomingMessage {
    /// Raw payload bytes
    pub payload: Vec<u8>,
    /// Message metadata
    pub metadata: MessageMetadata,
}

/// Relies on std's `String::from_utf8`: succeeds exactly on valid UTF-8,
/// and the returned string's bytes are the input bytes.
#[verifier::external_body]
fn string_from_utf8(bytes: Vec<u8>) -> (r: Option<String>)
    ensures
        r is Some <==> vstd::utf8::valid_utf8(bytes@),
        r matches Some(s) ==> vstd::utf8::encode_utf8(s@) == bytes@,
{
    String::from_utf8(bytes).ok()
}

impl IncomingMessage {
    /// The message key as text, when it is valid UTF-8.
    pub fn key_str(&self) -> (r: Option<String>)
        ensures
            match self.metadata.key {
                Some(k) => (r is Some <==> vstd::utf8::valid_utf8(k@)) && (r matches Some(s)
                    ==> vstd::utf8::encode_utf8(s@) == k@),
                None => r is None,
            },
    {
        match &self.metadata.key {
            Some(k) => string_from_utf8(k.clone()),
            None => None,
        }
    }

    /// The first header of the given name.
    pub fn header<'a>(&'a self, key: &str) -> (r: Option<&'a String>)
        ensures
            match r {
                Some(v) => spec_map_get(self.metadata.headers@, key@) == Some(v@),
                None => spec_map_get(self.metadata.headers@, key@) is None,
            },
    {
        map_get(&self.metadata.headers, key)
    }

    /// The correlation-id header.
    pub fn correlation_id<'a>(&'a self) -> (r: Option<&'a String>)
        ensures
            match r {
                Some(v) => spec_map_get(self.metadata.headers@, "correlation-id"@) == Some(v@),
                None => spec_map_get(self.metadata.headers@, "correlation-id"@) is None,
            },
    {
        self.header("correlation-id")
    }

    /// The message-type header.
    pub fn message_type<'a>(&'a self) -> (r: Option<&'a String>)
        ensures
            match r {
                Some(v) => spec_map_get(self.metadata.headers@, "message-type"@) == Some(v@),
                None => spec_map_get(self.metadata.headers@, "message-type"@) is None,
            },
    {
        self.header("message-type")
    }
}

/// Handler for processing consumed messages, implemented by the library's
/// users.
pub trait MessageHandler {
    /// Process a single message.
    fn handle(&self, message: IncomingMessage) -> Result<(), ConsumerError>;

    /// Called when message processing fails.
    fn on_error(&self, message: IncomingMessage, error: ConsumerError) {
    }
}

/// A handler made from a plain function.
pub struct FnHandler<F> where F: Fn(IncomingMessage) -> Result<(), ConsumerError> {
    handler: F,
}

impl<F> FnHandler<F> where F: Fn(IncomingMessage) -> Result<(), ConsumerError> {
    #[verifier::type_invariant]
    spec fn callable(self) -> bool {
        forall|m: IncomingMessage| self.handler.requires((m,))
    }

    pub fn new(handler: F) -> Self
        requires
            forall|m: IncomingMessage| handler.requires((m,)),
    {
        FnHandler { handler }
    }
}

impl<F> MessageHandler for FnHandler<F> where F: Fn(IncomingMessage) -> Result<
    (),
    ConsumerError,
> {
    fn handle(&self, message: IncomingMessage) -> Result<(), ConsumerError> {
        proof {
            use_type_invariant(self);
        }
        (self.handler)(message)
    }
}

/// The dead-letter envelope payload: the original topic, the original
/// bytes in base64, the failure reason, and the moment of failure.
pub open spec fn spec_dlq_payload(
    original_topic: Seq<char>,
    payload: Seq<u8>,
    error: Seq<char>,
    ts: UtcDateTime,
) -> Seq<char> {
    "{\"original_topic\":"@ + spec_quote(original_topic) + ",\"original_message_base64\":"@
        + spec_quote(spec_b64(payload)) + ",\"error\":"@ + spec_quote(error) + ",\"timestamp\":"@
        + spec_quote(ts.spec_rfc3339()) + seq!['}']
}

/// Wrap a failed message for the dead-letter queue: the envelope as JSON,
/// a fresh UUID key, and the `message-type`, `original-topic` and
/// `error-reason` headers.
pub fn build_dlq_message(
    dlq_topic: &str,
    original_topic: &str,
    original_message: &Vec<u8>,
    error: &str,
    now: UtcDateTime,
) -> (r: OutgoingMessage)
    requires
        now.wf(),
    ensures
        r.topic@ == dlq_topic@,
        r.key matches Some(k) && spec_is_uuid_text(k@),
        r.payload@ == vstd::utf8::encode_utf8(
            spec_dlq_payload(original_topic@, original_message@, error@, now),
        ),
        r.headers@.len() == 3,
        r.headers@[0].0@ == "message-type"@ && r.headers@[0].1@ == "dead_letter"@,
        r.headers@[1].0@ == "original-topic"@ && r.headers@[1].1@ == original_topic@,
        r.headers@[2].0@ == "error-reason"@ && r.headers@[2].1@ == error@,
{
    let mut body = String::new();
    body.append("{\"original_topic\":");
    crate::codec::append_quoted(&mut body, original_topic);
    body.append(",\"original_message_base64\":");
    let b = base64_encode(original_message);
    crate::codec::append_quoted(&mut body, b.as_str());
    body.append(",\"error\":");
    crate::codec::append_quoted(&mut body, error);
    body.append(",\"timestamp\":");
    let ts = now.format_rfc3339();
    crate::codec::append_quoted(&mut body, ts.as_str());
    push_char(&mut body, '}');
    proof {
        assert(body@ =~= spec_dlq_payload(original_topic@, original_message@, error@, now));
    }
    let payload = body.as_str().as_bytes_vec();
    let key = crate::ids::new_uuid();
    let msg = OutgoingMessage::new(String::from_str(dlq_topic), payload).with_key(
        key,
    ).with_message_type(String::from_str("dead_letter")).with_header(
        String::from_str("original-topic"),
        String::from_str(original_topic),
    ).with_header(String::from_str("error-reason"), String::from_str(error));
    proof {
        assert(msg.headers@[0] == msg.headers@.drop_last().drop_last()[0]);
        assert(msg.headers@[1] == msg.headers@.drop_last()[1]);
    }
    msg
}

/// What the consumer does after one handled message: whether it commits
/// the offset, and whether it routes the payload to the dead-letter
/// queue.  Offsets are committed whether or not the handler succeeded,
/// so a poison message does not stall the partition.
#[derive(Debug, Clone, Copy, PartialEq, Eq, Structural)]
pub struct DispatchPlan {
    /// Commit the message's offset
    pub commit: bool,
    /// Send the payload to the dead-letter queue
    pub send_to_dlq: bool,
}

/// The dispatch decision for one handled message.
pub fn dispatch_plan(handler_ok: bool, enable_auto_commit: bool, dlq_wired: bool) -> (r:
    DispatchPlan)
    ensures
        r.commit == !enable_auto_commit,
        r.send_to_dlq == (!handler_ok && dlq_wired),
{
    DispatchPlan { commit: !enable_auto_commit, send_to_dlq: !handler_ok && dlq_wired }
}


/// Builder for producer configurations with custom settings.  What it
/// assembles is the configuration; creating the broker client from it
/// happens outside the library.
pub struct ProducerBuilder {
    /// The configuration being assembled
    pub config: crate::pipeline_config::KafkaConfig,
}

impl ProducerBuilder {
    /// Start from the default configuration for the given brokers.
    pub fn new(bootstrap_servers: String) -> (r: Self)
        ensures
            r.config.bootstrap_servers@ == bootstrap_servers@,
            r.config.client_id@ == "nier-pipeline"@,
    {
        ProducerBuilder { config: crate::pipeline_config::KafkaConfig::new(bootstrap_servers) }
    }

    /// Set the client ID.
    pub fn client_id(self, client_id: String) -> (r: Self)
        ensures
            r.config == (crate::pipeline_config::KafkaConfig { client_id, ..self.config }),
    {
        let mut config = self.config;
        config.client_id = client_id;
        ProducerBuilder { config }
    }

    /// Enable or disable the idempotent producer.
    pub fn idempotent(self, enable: bool) -> (r: Self)
        ensures
            r.config.reliability.enable_idempotence == enable,
            r.config.bootstrap_servers == self.config.bootstrap_servers,
            r.config.client_id == self.config.client_id,
            r.config.producer == self.config.producer,
    {
        let mut config = self.config;
        config.reliability.enable_idempotence = enable;
        ProducerBuilder { config }
    }

    /// Set the compression type.
    pub fn compression(self, compression: String) -> (r: Self)
        ensures
            r.config.producer.compression_type@ == compression@,
            r.config.bootstrap_servers == self.config.bootstrap_servers,
            r.config.client_id == self.config.client_id,
            r.config.reliability == self.config.reliability,
    {
        let mut config = self.config;
        config.producer.compression_type = compression;
        ProducerBuilder { config }
    }

    /// Set the batch size.
    pub fn batch_size(self, size: usize) -> (r: Self)
        ensures
            r.config.producer.batch_size == size,
            r.config.bootstrap_servers == self.config.bootstrap_servers,
            r.config.client_id == self.config.client_id,
            r.config.reliability == self.config.reliability,
    {
        let mut config = self.config;
        config.producer.batch_size = size;
        ProducerBuilder { config }
    }

    /// Set the linger time.
    pub fn linger_ms(self, ms: u64) -> (r: Self)
        ensures
            r.config.producer.linger_ms == ms,
            r.config.bootstrap_servers == self.config.bootstrap_servers,
            r.config.client_id == self.config.client_id,
            r.config.reliability == self.config.reliability,
    {
        let mut config = self.config;
        config.producer.linger_ms = ms;
        ProducerBuilder { config }
    }
}

} // verus!