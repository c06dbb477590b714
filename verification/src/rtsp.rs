//! Stream acquisition: raw frames, connection state, stream statistics,
//! the reconnect policy with its exponential backoff, and the decode
//! pipeline description.
//!
//! Connecting, decoding and tearing down the stream is I/O and stays
//! outside the library; it advances the state machine here and obeys
//! the delays and caps it computes.

use vstd::prelude::*;
use crate::ingest_config::RtspConfig;
use crate::strutil::{append_u64, spec_u64_dec, str_eq};

verus! {

/// Errors of stream acquisition.
#[derive(Debug, Clone, PartialEq)]
pub enum RtspError {
    /// Decoder initialization failed
    GstreamerInit(String),
    /// Pipeline creation failed
    PipelineCreation(String),
    /// A pipeline element was not found
    ElementNotFound(String),
    /// Stream connection failed
    ConnectionFailed(String),
    /// The stream disconnected unexpectedly
    Disconnected,
    /// The reconnection cap was reached
    MaxReconnectAttemptsExceeded,
    /// A pipeline state change failed
    StateChangeFailed(String),
    /// Frame extraction failed
    FrameExtractionFailed(String),
}

/// A raw frame extracted from the stream.
#[derive(Debug, Clone)]
pub struct RawFrame {
    /// Frame bytes
    pub data: Vec<u8>,
    /// Frame width in pixels
    pub width: u32,
    /// Frame height in pixels
    pub height: u32,
    /// Presentation timestamp
    pub pts: Option<u64>,
    /// Frame sequence number
    pub sequence: u64,
    /// Capture instant, microseconds on the caller's clock
    pub captured_at_us: u64,
    /// Pixel format tag
    pub format: String,
}

/// Statistics of one stream session.
#[derive(Debug, Clone, Copy, PartialEq, Eq, Structural)]
pub struct StreamStats {
    pub frames_received: u64,
    pub frames_dropped: u64,
    pub bytes_received: u64,
    pub reconnect_count: u32,
    /// Instant of the last frame, microseconds on the caller's clock
    pub last_frame_at_us: Option<u64>,
    /// Instant the stream started, microseconds on the caller's clock
    pub stream_start_us: Option<u64>,
    /// Received rate in thousandths of a frame per second
    pub current_fps_milli: u64,
}

impl Default for StreamStats {
    fn default() -> (r: Self)
        ensures
            r.frames_received == 0,
            r.frames_dropped == 0,
            r.bytes_received == 0,
            r.reconnect_count == 0,
            r.last_frame_at_us is None,
            r.stream_start_us is None,
            r.current_fps_milli == 0,
    {
        StreamStats {
            frames_received: 0,
            frames_dropped: 0,
            bytes_received: 0,
            reconnect_count: 0,
            last_frame_at_us: None,
            stream_start_us: None,
            current_fps_milli: 0,
        }
    }
}

/// The rate in thousandths of a frame per second, given a frame count
/// and an elapsed time, saturated at the counter's width.
pub open spec fn spec_fps_milli(frames: int, elapsed_us: int) -> int {
    let f = frames * 1000000000 / elapsed_us;
    if f > u64::MAX {
        u64::MAX as int
    } else {
        f
    }
}

impl StreamStats {
    /// Record one received frame of `len` bytes at instant `now_us`:
    /// the counters grow, and the rate is the count over the time since
    /// the stream started.
    pub fn record_frame(&mut self, len: usize, now_us: u64)
        requires
            old(self).frames_received < u64::MAX,
            old(self).bytes_received + len <= u64::MAX,
        ensures
            final(self).frames_received == old(self).frames_received + 1,
            final(self).bytes_received == old(self).bytes_received + len,
            final(self).last_frame_at_us == Some(now_us),
            final(self).frames_dropped == old(self).frames_dropped,
            final(self).reconnect_count == old(self).reconnect_count,
            final(self).stream_start_us == old(self).stream_start_us,
            match old(self).stream_start_us {
                Some(start) => if now_us > start {
                    final(self).current_fps_milli == spec_fps_milli(
                        old(self).frames_received + 1,
                        now_us - start,
                    )
                } else {
                    final(self).current_fps_milli == old(self).current_fps_milli
                },
                None => final(self).current_fps_milli == old(self).current_fps_milli,
            },
    {
        self.frames_received = self.frames_received + 1;
        self.bytes_received = self.bytes_received + len as u64;
        self.last_frame_at_us = Some(now_us);
        match self.stream_start_us {
            Some(start) => {
                if now_us > start {
                    let elapsed = (now_us - start) as u128;
                    let f = (self.frames_received as u128) * 1000000000 / elapsed;
                    self.current_fps_milli = if f > u64::MAX as u128 {
                        u64::MAX
                    } else {
                        f as u64
                    };
                }
            },
            None => {},
        }
    }

    /// Record one frame shed to backpressure.
    pub fn record_dropped(&mut self)
        requires
            old(self).frames_dropped < u64::MAX,
        ensures
            *final(self) == (StreamStats {
                frames_dropped: (old(self).frames_dropped + 1) as u64,
                ..*old(self)
            }),
    {
        self.frames_dropped = self.frames_dropped + 1;
    }
}

/// State of the stream connection.
#[derive(Debug, Clone, Copy, PartialEq, Eq, Structural)]
pub enum ConnectionState {
    Disconnected,
    Connecting,
    Connected,
    Reconnecting,
    Failed,
}

/// The exponential backoff delay before retry `attempt`: the base delay
/// doubled per attempt, capped at the maximum.
pub open spec fn spec_backoff(base_ms: u64, max_ms: u64, attempt: nat) -> int
    decreases attempt,
{
    if attempt == 0 {
        if base_ms > max_ms {
            max_ms as int
        } else {
            base_ms as int
        }
    } else {
        let prev = spec_backoff(base_ms, max_ms, (attempt - 1) as nat);
        if prev >= max_ms {
            max_ms as int
        } else if prev * 2 > max_ms {
            max_ms as int
        } else {
            prev * 2
        }
    }
}

/// Delay in milliseconds before the retry numbered `attempt` (0-based).
pub fn backoff_delay(base_ms: u64, max_ms: u64, attempt: u32) -> (r: u64)
    ensures
        r == spec_backoff(base_ms, max_ms, attempt as nat),
{
    let mut d: u64 = if base_ms > max_ms {
        max_ms
    } else {
        base_ms
    };
    let mut i: u32 = 0;
    while i < attempt
        invariant
            i <= attempt,
            d == spec_backoff(base_ms, max_ms, i as nat),
            d <= max_ms,
        decreases attempt - i,
    {
        d = if d >= max_ms {
            max_ms
        } else if d > max_ms / 2 {
            max_ms
        } else {
            d * 2
        };
        proof {
            let prev = spec_backoff(base_ms, max_ms, i as nat);
            assert(prev * 2 > max_ms <==> prev > max_ms / 2 || prev * 2 > max_ms);
        }
        i = i + 1;
    }
    d
}

/// Whether a failed attempt exhausts the cap: with a positive cap, the
/// client gives up when the failure count reaches it.
pub open spec fn spec_gives_up(attempts_before: int, max_attempts: int) -> bool {
    max_attempts > 0 && attempts_before + 1 >= max_attempts
}

/// The connection's supervisor state: the failure count of the current
/// connect loop and the externally visible connection state.
#[derive(Debug, Clone, Copy, PartialEq, Eq, Structural)]
pub struct ReconnectPolicy {
    /// Failures so far in this connect loop
    pub attempts: u32,
    /// The externally visible connection state
    pub state: ConnectionState,
}

impl ReconnectPolicy {
    /// A fresh, disconnected policy.
    pub fn new() -> (r: Self)
        ensures
            r.attempts == 0,
            r.state == ConnectionState::Disconnected,
    {
        ReconnectPolicy { attempts: 0, state: ConnectionState::Disconnected }
    }

    /// Enter an attempt: connecting the first time, reconnecting after.
    pub fn begin_attempt(&mut self)
        ensures
            final(self).attempts == old(self).attempts,
            final(self).state == if old(self).attempts == 0 {
                ConnectionState::Connecting
            } else {
                ConnectionState::Reconnecting
            },
    {
        self.state = if self.attempts == 0 {
            ConnectionState::Connecting
        } else {
            ConnectionState::Reconnecting
        };
    }

    /// Record a successful connection.
    pub fn record_success(&mut self)
        ensures
            final(self).attempts == old(self).attempts,
            final(self).state == ConnectionState::Connected,
    {
        self.state = ConnectionState::Connected;
    }

    /// Record a failed attempt; reports whether the cap is exhausted, in
    /// which case the connection is failed for good.
    pub fn record_failure(&mut self, max_attempts: u32) -> (r: bool)
        requires
            old(self).attempts < u32::MAX,
        ensures
            final(self).attempts == old(self).attempts + 1,
            r == spec_gives_up(old(self).attempts as int, max_attempts as int),
            r ==> final(self).state == ConnectionState::Failed,
            !r ==> final(self).state == old(self).state,
    {
        self.attempts = self.attempts + 1;
        if max_attempts > 0 && self.attempts >= max_attempts {
            self.state = ConnectionState::Failed;
            true
        } else {
            false
        }
    }

    /// Reset the failure count for a new connect loop.
    pub fn reset_attempts(&mut self)
        ensures
            final(self).attempts == 0,
            final(self).state == old(self).state,
    {
        self.attempts = 0;
    }
}

/// The reconnect cap is exact: against an endpoint that fails every
/// attempt, with a positive cap `k`, the attempt numbered `j` (0-based)
/// exhausts the cap exactly when it is the `k`-th — the client reaches
/// the failed state after exactly `k` attempts and not before.
pub proof fn lemma_reconnect_cap(k: int)
    requires
        k >= 1,
    ensures
        forall|j: int| 0 <= j < k ==> (spec_gives_up(j, k) <==> j == k - 1),
{
}

/// The decode pipeline description: source, depayload, decode, convert,
/// scale and sink, with the URL, the transport and the jitter buffer
/// filled in.
pub open spec fn spec_pipeline_string(c: RtspConfig) -> Seq<char> {
    let transport = if c.transport@ == "udp"@ {
        "0"@
    } else if c.transport@ == "udp-mcast"@ {
        "1"@
    } else {
        "2"@
    };
    "rtspsrc location="@ + c.url@ + " protocols="@ + transport + " latency="@ + spec_u64_dec(
        c.buffer_ms as int,
    )
        + " ! rtph264depay ! h264parse ! avdec_h264 ! videoconvert ! videoscale ! video/x-raw,format=RGB,width=640,height=480 ! appsink name=sink emit-signals=true sync=false max-buffers=2 drop=true"@
}

/// Build the decode pipeline description for the configured stream.
pub fn build_pipeline_string(config: &RtspConfig) -> (r: String)
    ensures
        r@ == spec_pipeline_string(*config),
{
    let transport: &str = if str_eq(config.transport.as_str(), "udp") {
        "0"
    } else if str_eq(config.transport.as_str(), "udp-mcast") {
        "1"
    } else {
        "2"
    };
    let mut out = String::from_str("rtspsrc location=");
    out.append(config.url.as_str());
    out.append(" protocols=");
    out.append(transport);
    out.append(" latency=");
    append_u64(&mut out, config.buffer_ms as u64);
    out.append(
        " ! rtph264depay ! h264parse ! avdec_h264 ! videoconvert ! videoscale ! video/x-raw,format=RGB,width=640,height=480 ! appsink name=sink emit-signals=true sync=false max-buffers=2 drop=true",
    );
    proof {
        assert(out@ =~= spec_pipeline_string(*config));
    }
    out
}

} // verus!
