//! Verified core of a three-stage factory-floor video analytics pipeline.
//!
//! The library holds the logic of the three services — stream ingest,
//! reliable messaging, and selective frame storage — as verified functions
//! over plain values.  Network, broker, object-store and database I/O live
//! outside the library and hand it bytes and integers.

pub mod api;
pub mod b64;
pub mod batching;
pub mod codec;
pub mod datetime;
pub mod events;
pub mod ids;
pub mod ingest_config;
pub mod messages;
pub mod metadata;
pub mod pipeline_config;
pub mod processor;
pub mod rtsp;
pub mod selector;
pub mod storage_config;
pub mod strutil;
pub mod uploader;
