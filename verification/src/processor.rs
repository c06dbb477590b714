//! Frame processing: rate limiting, resize and pixel-format conversion,
//! and processing statistics.
//!
//! Channels and task scheduling stay outside the library; the caller
//! hands each raw frame and a clock reading to the processing step and
//! forwards what comes back.

use vstd::prelude::*;
use crate::ingest_config::ProcessingConfig;
use crate::rtsp::RawFrame;
use crate::strutil::{append_u64, push_char, spec_u64_dec};

verus! {

/// Errors of frame processing.
#[derive(Debug, Clone, PartialEq)]
pub enum ProcessingError {
    /// Frame processing failed
    ProcessingFailed(String),
    /// The frame format is invalid
    InvalidFormat(String),
    /// The resize failed
    ResizeFailed(String),
    /// The color conversion failed
    ColorConversionFailed(String),
    /// The queue is full; the frame was dropped
    QueueFull,
    /// The processor is shutting down
    Shutdown,
}

/// A processed frame ready for inference.
#[derive(Debug, Clone)]
pub struct ProcessedFrame {
    /// Unique frame identifier
    pub frame_id: String,
    /// Device identifier
    pub device_id: String,
    /// Processed frame bytes
    pub data: Vec<u8>,
    /// Width after processing
    pub width: u32,
    /// Height after processing
    pub height: u32,
    /// Pixel format of the processed bytes
    pub pixel_format: String,
    /// Original frame width
    pub original_width: u32,
    /// Original frame height
    pub original_height: u32,
    /// Frame sequence number
    pub sequence: u64,
    /// Capture instant, microseconds on the caller's clock
    pub captured_at_us: u64,
    /// Instant processing finished, microseconds on the caller's clock
    pub processed_at_us: u64,
    /// Processing latency in microseconds
    pub processing_latency_us: u64,
}

/// Statistics of the processor.
#[derive(Debug, Clone, Copy, PartialEq, Eq, Structural)]
pub struct ProcessorStats {
    pub frames_processed: u64,
    pub frames_dropped_rate_limit: u64,
    pub frames_dropped_backpressure: u64,
    pub total_processing_time_us: u64,
    /// Mean processing time in microseconds (zero before the first frame)
    pub avg_processing_time_us: u64,
    /// Instant of the last processed frame
    pub last_frame_at_us: Option<u64>,
}

impl Default for ProcessorStats {
    fn default() -> (r: Self)
        ensures
            r.frames_processed == 0,
            r.frames_dropped_rate_limit == 0,
            r.frames_dropped_backpressure == 0,
            r.total_processing_time_us == 0,
            r.avg_processing_time_us == 0,
            r.last_frame_at_us is None,
    {
        ProcessorStats {
            frames_processed: 0,
            frames_dropped_rate_limit: 0,
            frames_dropped_backpressure: 0,
            total_processing_time_us: 0,
            avg_processing_time_us: 0,
            last_frame_at_us: None,
        }
    }
}

/// Settings adjustable at run time.  The target rate is held in
/// thousandths of a frame per second.
#[derive(Debug, Clone, Copy, PartialEq, Eq, Structural)]
pub struct ProcessorSettings {
    pub target_width: u32,
    pub target_height: u32,
    pub target_fps_milli: u32,
    pub drop_on_backpressure: bool,
}

impl<'a> From<&'a ProcessingConfig> for ProcessorSettings {
    fn from(config: &'a ProcessingConfig) -> (r: Self) {
        ProcessorSettings {
            target_width: config.target_width,
            target_height: config.target_height,
            target_fps_milli: config.target_fps_milli,
            drop_on_backpressure: config.drop_on_backpressure,
        }
    }
}

impl<'a> vstd::std_specs::convert::FromSpecImpl<&'a ProcessingConfig> for ProcessorSettings {
    open spec fn obeys_from_spec() -> bool {
        true
    }

    open spec fn from_spec(config: &'a ProcessingConfig) -> Self {
        ProcessorSettings {
            target_width: config.target_width,
            target_height: config.target_height,
            target_fps_milli: config.target_fps_milli,
            drop_on_backpressure: config.drop_on_backpressure,
        }
    }
}

/// The admission interval in microseconds for a rate in thousandths of
/// a frame per second.  Integer division truncates the exact `1/f`
/// below the microsecond, so the admitted rate can exceed the target by
/// at most one part in a million.
pub open spec fn spec_min_interval_us(fps_milli: int) -> int {
    1000000000int / fps_milli
}

/// Whether a frame arriving at `now` is admitted: always on the first
/// frame, then only once the interval has elapsed since the last
/// admitted frame.
pub open spec fn spec_admit(last: Option<u64>, now: int, interval: int) -> bool {
    match last {
        None => true,
        Some(t) => now - t >= interval,
    }
}

/// Frame processor for preparing camera frames for inference.
pub struct FrameProcessor {
    /// The processing configuration the processor was created with
    pub config: ProcessingConfig,
    /// The device whose frames are processed
    pub device_id: String,
    /// Current settings
    pub settings: ProcessorSettings,
    /// Running statistics
    pub stats: ProcessorStats,
    /// Whether the processor is running
    pub running: bool,
    /// Instant of the last admitted frame
    pub last_frame_time_us: Option<u64>,
}

impl FrameProcessor {
    /// Create a new frame processor.
    pub fn new(config: ProcessingConfig, device_id: String) -> (r: Self)
        ensures
            r.settings == (ProcessorSettings {
                target_width: config.target_width,
                target_height: config.target_height,
                target_fps_milli: config.target_fps_milli,
                drop_on_backpressure: config.drop_on_backpressure,
            }),
            r.device_id@ == device_id@,
            r.stats.frames_processed == 0,
            r.stats.frames_dropped_rate_limit == 0,
            r.stats.frames_dropped_backpressure == 0,
            r.stats.total_processing_time_us == 0,
            r.stats.avg_processing_time_us == 0,
            r.stats.last_frame_at_us is None,
            r.running == false,
            r.last_frame_time_us is None,
    {
        let settings = ProcessorSettings::from(&config);
        FrameProcessor {
            config,
            device_id,
            settings,
            stats: ProcessorStats::default(),
            running: false,
            last_frame_time_us: None,
        }
    }

    /// Current statistics.
    pub fn stats(&self) -> (r: ProcessorStats)
        ensures
            r == self.stats,
    {
        self.stats
    }

    /// Replace the settings; they take effect for the next frame.
    pub fn update_settings(&mut self, settings: ProcessorSettings)
        ensures
            final(self).settings == settings,
            final(self).stats == old(self).stats,
            final(self).running == old(self).running,
            final(self).last_frame_time_us == old(self).last_frame_time_us,
            final(self).config == old(self).config,
            final(self).device_id == old(self).device_id,
    {
        self.settings = settings;
    }

    /// Whether the processor is running.
    pub fn is_running(&self) -> (r: bool)
        ensures
            r == self.running,
    {
        self.running
    }

    /// Mark the processor started.
    pub fn start(&mut self)
        ensures
            final(self).running == true,
            final(self).settings == old(self).settings,
            final(self).stats == old(self).stats,
            final(self).last_frame_time_us == old(self).last_frame_time_us,
            final(self).config == old(self).config,
            final(self).device_id == old(self).device_id,
    {
        self.running = true;
    }

    /// Stop the processor.
    pub fn stop(&mut self)
        ensures
            final(self).running == false,
            final(self).settings == old(self).settings,
            final(self).stats == old(self).stats,
            final(self).last_frame_time_us == old(self).last_frame_time_us,
            final(self).config == old(self).config,
            final(self).device_id == old(self).device_id,
    {
        self.running = false;
    }

    /// Admit or shed a frame arriving at `now_us` against the target
    /// rate; an admitted frame advances the admission clock.
    pub fn should_process_frame(&mut self, now_us: u64) -> (r: bool)
        requires
            old(self).settings.target_fps_milli >= 1,
            match old(self).last_frame_time_us {
                Some(t) => now_us >= t,
                None => true,
            },
        ensures
            r == spec_admit(
                old(self).last_frame_time_us,
                now_us as int,
                spec_min_interval_us(old(self).settings.target_fps_milli as int),
            ),
            r ==> final(self).last_frame_time_us == Some(now_us),
            !r ==> final(self).last_frame_time_us == old(self).last_frame_time_us,
            final(self).settings == old(self).settings,
            final(self).stats == old(self).stats,
            final(self).running == old(self).running,
            final(self).config == old(self).config,
            final(self).device_id == old(self).device_id,
    {
        let interval: u64 = 1000000000 / (self.settings.target_fps_milli as u64);
        let accepted = match self.last_frame_time_us {
            None => true,
            Some(t) => now_us - t >= interval,
        };
        if accepted {
            self.last_frame_time_us = Some(now_us);
        }
        accepted
    }

    /// Process one frame at instant `now_us`: resize and convert to the
    /// target shape, stamp the frame id, and update the statistics.
    /// The output buffer holds `target_width * target_height * 3` bytes
    /// of RGB24, whatever the source dimensions.
    pub fn process_frame(&mut self, frame: RawFrame, now_us: u64) -> (r: ProcessedFrame)
        requires
            old(self).settings.target_width >= 1,
            old(self).settings.target_height >= 1,
            old(self).settings.target_width * old(self).settings.target_height * 3 <= usize::MAX,
            old(self).stats.frames_processed < u64::MAX,
            now_us >= frame.captured_at_us,
            old(self).stats.total_processing_time_us + (now_us - frame.captured_at_us)
                <= u64::MAX,
        ensures
            r.data@.len() == old(self).settings.target_width * old(self).settings.target_height
                * 3,
            r.pixel_format@ == "RGB24"@,
            r.width == old(self).settings.target_width,
            r.height == old(self).settings.target_height,
            r.original_width == frame.width,
            r.original_height == frame.height,
            r.sequence == frame.sequence,
            r.device_id@ == old(self).device_id@,
            r.captured_at_us == frame.captured_at_us,
            r.processed_at_us == now_us,
            r.processing_latency_us == now_us - frame.captured_at_us,
            r.frame_id@ == old(self).device_id@ + seq!['-'] + spec_u64_dec(frame.sequence as int)
                + seq!['-'] + spec_u64_dec(spec_capture_nanos(frame.captured_at_us as int)),
            final(self).stats.frames_processed == old(self).stats.frames_processed + 1,
            final(self).stats.total_processing_time_us == old(self).stats.total_processing_time_us
                + r.processing_latency_us,
            final(self).stats.avg_processing_time_us == final(
                self
            ).stats.total_processing_time_us / final(self).stats.frames_processed,
            final(self).stats.last_frame_at_us == Some(now_us),
            final(self).stats.frames_dropped_rate_limit == old(
                self
            ).stats.frames_dropped_rate_limit,
            final(self).stats.frames_dropped_backpressure == old(
                self
            ).stats.frames_dropped_backpressure,
            final(self).settings == old(self).settings,
            final(self).last_frame_time_us == old(self).last_frame_time_us,
            final(self).running == old(self).running,
            final(self).device_id == old(self).device_id,
    {
        let data = resize_and_convert(
            &frame.data,
            frame.width,
            frame.height,
            self.settings.target_width,
            self.settings.target_height,
        );
        let latency = now_us - frame.captured_at_us;
        let mut frame_id = self.device_id.clone();
        push_char(&mut frame_id, '-');
        append_u64(&mut frame_id, frame.sequence);
        push_char(&mut frame_id, '-');
        append_u64(&mut frame_id, capture_nanos(frame.captured_at_us));
        self.stats.frames_processed = self.stats.frames_processed + 1;
        self.stats.total_processing_time_us = self.stats.total_processing_time_us + latency;
        self.stats.avg_processing_time_us = self.stats.total_processing_time_us
            / self.stats.frames_processed;
        self.stats.last_frame_at_us = Some(now_us);
        proof {
            assert(frame_id@ =~= self.device_id@ + seq!['-'] + spec_u64_dec(frame.sequence as int)
                + seq!['-'] + spec_u64_dec(spec_capture_nanos(frame.captured_at_us as int)));
        }
        ProcessedFrame {
            frame_id,
            device_id: self.device_id.clone(),
            data,
            width: self.settings.target_width,
            height: self.settings.target_height,
            pixel_format: String::from_str("RGB24"),
            original_width: frame.width,
            original_height: frame.height,
            sequence: frame.sequence,
            captured_at_us: frame.captured_at_us,
            processed_at_us: now_us,
            processing_latency_us: latency,
        }
    }
}

/// The capture instant in nanoseconds, saturated at the counter width.
pub open spec fn spec_capture_nanos(us: int) -> int {
    if us * 1000 > u64::MAX {
        u64::MAX as int
    } else {
        us * 1000
    }
}

fn capture_nanos(captured_at_us: u64) -> (r: u64)
    ensures
        r == spec_capture_nanos(captured_at_us as int),
{
    if captured_at_us > u64::MAX / 1000 {
        u64::MAX
    } else {
        captured_at_us * 1000
    }
}

/// The source pixel sampled for output position `(x, y)`: floor scaling
/// of each coordinate.
pub open spec fn spec_src_index(
    x: int,
    y: int,
    src_w: int,
    src_h: int,
    dst_w: int,
    dst_h: int,
) -> int {
    ((y * src_h / dst_h) * src_w + (x * src_w / dst_w)) * 3
}

/// Every output pixel strictly before `(x, y)` in row-major order holds
/// a copy of its sampled source pixel when that pixel lies inside the
/// source buffer, and zero bytes otherwise.
pub open spec fn spec_pixels_ok(
    out: Seq<u8>,
    data: Seq<u8>,
    src_w: int,
    src_h: int,
    dst_w: int,
    dst_h: int,
    x: int,
    y: int,
) -> bool {
    forall|xi: int, yi: int|
        #![trigger spec_src_index(xi, yi, src_w, src_h, dst_w, dst_h)]
        0 <= xi < dst_w && 0 <= yi && (yi < y || (yi == y && xi < x)) ==> {
            let si = spec_src_index(xi, yi, src_w, src_h, dst_w, dst_h);
            let di = (yi * dst_w + xi) * 3;
            if si + 2 < data.len() {
                out[di] == data[si] && out[di + 1] == data[si + 1] && out[di + 2] == data[si + 2]
            } else {
                out[di] == 0 && out[di + 1] == 0 && out[di + 2] == 0
            }
        }
}

/// Every output byte from the pixel at `(x, y)` on is still zero.
pub open spec fn spec_tail_zero(out: Seq<u8>, dst_w: int, x: int, y: int) -> bool {
    forall|i: int| (y * dst_w + x) * 3 <= i < out.len() ==> #[trigger] out[i] == 0
}

/// Row-major byte indices are ordered: an earlier pixel's bytes lie
/// strictly below a later pixel's bytes.
proof fn lemma_rowmajor_lt(xi: int, yi: int, x: int, y: int, dst_w: int)
    requires
        0 <= xi < dst_w,
        0 <= x < dst_w,
        0 <= yi,
        yi < y || (yi == y && xi < x),
    ensures
        (yi * dst_w + xi) * 3 + 2 < (y * dst_w + x) * 3,
        0 <= (yi * dst_w + xi) * 3,
{
    assert((yi * dst_w + xi) * 3 + 2 < (y * dst_w + x) * 3) by (nonlinear_arith)
        requires
            0 <= xi < dst_w,
            0 <= x < dst_w,
            0 <= yi,
            yi < y || (yi == y && xi < x),
    ;
    assert(0 <= (yi * dst_w + xi) * 3) by (nonlinear_arith)
        requires
            0 <= xi,
            0 <= yi,
            0 < dst_w,
    ;
}

/// A destination pixel's byte index stays inside the output buffer.
proof fn lemma_dst_index_bound(x: int, y: int, dst_w: int, dst_h: int)
    requires
        0 <= x < dst_w,
        0 <= y < dst_h,
    ensures
        0 <= (y * dst_w + x) * 3,
        (y * dst_w + x) * 3 + 2 < dst_w * dst_h * 3,
{
    assert((y * dst_w + x) * 3 + 2 < dst_w * dst_h * 3) by (nonlinear_arith)
        requires
            0 <= x < dst_w,
            0 <= y < dst_h,
    ;
    assert(0 <= (y * dst_w + x) * 3) by (nonlinear_arith)
        requires
            0 <= x,
            0 <= y,
            0 < dst_w,
    ;
}

/// Resize the frame to the target dimensions with floor (nearest) pixel
/// sampling, three bytes per pixel.  Output pixels whose sampled source
/// pixel falls outside the buffer hold zero bytes.  Equal source and
/// target dimensions make the sampling the identity copy of a
/// `width * height * 3`-byte buffer; the format tag is not consulted.
pub fn resize_and_convert(data: &Vec<u8>, src_w: u32, src_h: u32, dst_w: u32, dst_h: u32) -> (r:
    Vec<u8>)
    requires
        dst_w >= 1,
        dst_h >= 1,
        dst_w * dst_h * 3 <= usize::MAX,
    ensures
        r@.len() == dst_w * dst_h * 3,
        spec_pixels_ok(
            r@,
            data@,
            src_w as int,
            src_h as int,
            dst_w as int,
            dst_h as int,
            0,
            dst_h as int,
        ),
{
    let dst_size: usize = (dst_w as usize) * (dst_h as usize) * 3;
    let mut out: Vec<u8> = Vec::new();
    let mut z: usize = 0;
    while z < dst_size
        invariant
            z <= dst_size,
            out@.len() == z,
            forall|i: int| 0 <= i < z ==> #[trigger] out@[i] == 0,
        decreases dst_size - z,
    {
        out.push(0u8);
        z = z + 1;
    }
    let mut y: u32 = 0;
    while y < dst_h
        invariant
            y <= dst_h,
            dst_w >= 1,
            dst_h >= 1,
            dst_w * dst_h * 3 <= usize::MAX,
            out@.len() == dst_w * dst_h * 3,
            spec_pixels_ok(
                out@,
                data@,
                src_w as int,
                src_h as int,
                dst_w as int,
                dst_h as int,
                0,
                y as int,
            ),
            spec_tail_zero(out@, dst_w as int, 0, y as int),
        decreases dst_h - y,
    {
        proof {
            assert((y as int * dst_w as int + dst_w as int) * 3 == ((y as int + 1) * dst_w as int
                + 0) * 3) by (nonlinear_arith);
        }
        proof {
            assert((y as int) * (src_h as int) < 0x10000000000000000) by (nonlinear_arith)
                requires
                    y < 0x100000000,
                    src_h < 0x100000000,
            ;
        }
        let src_y: u64 = ((y as u64) * (src_h as u64)) / (dst_h as u64);
        let mut x: u32 = 0;
        while x < dst_w
            invariant
                x <= dst_w,
                y < dst_h,
                dst_w >= 1,
                dst_h >= 1,
                dst_w * dst_h * 3 <= usize::MAX,
                src_y == y as int * src_h as int / dst_h as int,
                out@.len() == dst_w * dst_h * 3,
                spec_pixels_ok(
                    out@,
                    data@,
                    src_w as int,
                    src_h as int,
                    dst_w as int,
                    dst_h as int,
                    x as int,
                    y as int,
                ),
                spec_tail_zero(out@, dst_w as int, x as int, y as int),
            decreases dst_w - x,
        {
            proof {
                assert((x as int) * (src_w as int) < 0x10000000000000000) by (nonlinear_arith)
                    requires
                        x < 0x100000000,
                        src_w < 0x100000000,
                ;
            }
            let src_x: u64 = ((x as u64) * (src_w as u64)) / (dst_w as u64);
            proof {
                assert((src_y as int) * (src_w as int) + src_x + 2
                    < 0x100000000000000000000000000000000) by (nonlinear_arith)
                    requires
                        src_y < 0x10000000000000000,
                        src_w < 0x100000000,
                        src_x < 0x10000000000000000,
                ;
                assert(((src_y as int) * (src_w as int) + src_x) * 3 + 2
                    < 0x100000000000000000000000000000000) by (nonlinear_arith)
                    requires
                        src_y < 0x10000000000000000,
                        src_w < 0x100000000,
                        src_x < 0x10000000000000000,
                ;
            }
            let src_idx_u: u128 = ((src_y as u128) * (src_w as u128) + (src_x as u128)) * 3;
            proof {
                lemma_dst_index_bound(x as int, y as int, dst_w as int, dst_h as int);
                assert((y as int) * (dst_w as int) + (x as int) <= ((y as int) * (dst_w as int)
                    + (x as int)) * 3);
                assert(src_idx_u == spec_src_index(
                    x as int,
                    y as int,
                    src_w as int,
                    src_h as int,
                    dst_w as int,
                    dst_h as int,
                )) by (nonlinear_arith)
                    requires
                        src_y == y as int * src_h as int / dst_h as int,
                        src_x == x as int * src_w as int / dst_w as int,
                        src_idx_u == (src_y as int * src_w as int + src_x) * 3,
                ;
                assert((y as int * dst_w as int + x as int) * 3 + 3 == (y as int * dst_w as int
                    + (x as int + 1)) * 3) by (nonlinear_arith);
            }
            let dst_idx: usize = ((y as usize) * (dst_w as usize) + (x as usize)) * 3;
            let ghost before = out@;
            if src_idx_u + 2 < data.len() as u128 {
                let src_idx = src_idx_u as usize;
                let b0 = data[src_idx];
                let b1 = data[src_idx + 1];
                let b2 = data[src_idx + 2];
                out.set(dst_idx, b0);
                out.set(dst_idx + 1, b1);
                out.set(dst_idx + 2, b2);
            }
            proof {
                assert forall|xi: int, yi: int|
                    #![trigger spec_src_index(xi, yi, src_w as int, src_h as int, dst_w as int, dst_h as int)]
                    0 <= xi < dst_w && 0 <= yi && (yi < y || (yi == y && xi < x + 1)) implies {
                    let si = spec_src_index(
                        xi,
                        yi,
                        src_w as int,
                        src_h as int,
                        dst_w as int,
                        dst_h as int,
                    );
                    let di = (yi * dst_w + xi) * 3;
                    if si + 2 < data@.len() {
                        out@[di] == data@[si] && out@[di + 1] == data@[si + 1] && out@[di + 2]
                            == data@[si + 2]
                    } else {
                        out@[di] == 0 && out@[di + 1] == 0 && out@[di + 2] == 0
                    }
                } by {
                    if yi < y || (yi == y && xi < x) {
                        lemma_rowmajor_lt(xi, yi, x as int, y as int, dst_w as int);
                    } else {
                        assert(xi == x && yi == y);
                        if !(src_idx_u + 2 < data@.len()) {
                            assert(before[(y as int * dst_w as int + x as int) * 3] == 0);
                            assert(before[(y as int * dst_w as int + x as int) * 3 + 1] == 0);
                            assert(before[(y as int * dst_w as int + x as int) * 3 + 2] == 0);
                        }
                    }
                }
                assert forall|i: int|
                    (y as int * dst_w as int + (x as int + 1)) * 3 <= i < out@.len() implies
                    #[trigger] out@[i] == 0 by {
                    assert(before[i] == 0);
                }
            }
            x = x + 1;
        }
        proof {
            assert(spec_pixels_ok(
                out@,
                data@,
                src_w as int,
                src_h as int,
                dst_w as int,
                dst_h as int,
                0,
                y + 1int,
            ));
        }
        y = y + 1;
    }
    out
}

/// Rate limiting over a window is bounded: admitted instants that each
/// follow the last by at least the interval fit `window / interval + 1`
/// into any window.
pub proof fn lemma_rate_limit_upper(a: Seq<int>, interval: int, window: int)
    requires
        interval >= 1,
        window >= 0,
        forall|i: int| 0 <= i < a.len() - 1 ==> a[i + 1] - #[trigger] a[i] >= interval,
        a.len() > 0 ==> a.last() - a.first() <= window,
    ensures
        a.len() <= window / interval + 1,
{
    if a.len() > 0 {
        lemma_gap_sum(a, interval);
        let n = a.len() as int;
        assert((n - 1) * interval <= window);
        vstd::arithmetic::div_mod::lemma_div_is_ordered((n - 1) * interval, window, interval);
        vstd::arithmetic::div_mod::lemma_div_by_multiple(n - 1, interval);
        assert(((n - 1) * interval) / interval == n - 1);
    }
}

/// Adjacent gaps of at least the interval sum to at least the span.
proof fn lemma_gap_sum(a: Seq<int>, interval: int)
    requires
        interval >= 1,
        a.len() > 0,
        forall|i: int| 0 <= i < a.len() - 1 ==> a[i + 1] - #[trigger] a[i] >= interval,
    ensures
        a.last() - a.first() >= (a.len() - 1) * interval,
    decreases a.len(),
{
    if a.len() > 1 {
        let b = a.drop_last();
        assert forall|i: int| 0 <= i < b.len() - 1 implies b[i + 1] - #[trigger] b[i]
            >= interval by {
            assert(b[i + 1] == a[i + 1]);
            assert(b[i] == a[i]);
        }
        lemma_gap_sum(b, interval);
        let n = a.len() as int;
        assert(b.len() == n - 1);
        assert(a[(n - 2) + 1] - a[n - 2] >= interval);
        assert(a.last() == a[(n - 2) + 1]);
        assert(b.last() == a[n - 2]);
        assert(b.first() == a.first());
        assert(a[n - 2] - a.first() >= (n - 2) * interval);
        assert((n - 1) * interval == (n - 2) * interval + interval) by (nonlinear_arith);
        assert(a.last() - a.first() >= (n - 1) * interval);
    } else {
        assert(a.len() == 1);
        assert((a.len() - 1) * interval == 0) by (nonlinear_arith)
            requires
                a.len() == 1,
        ;
    }
}

/// A saturated burst is admitted at full rate: with frames arriving at
/// every instant of `0 ..= t`, the admission clock sits at the last
/// multiple of the interval, and the admitted count is exact.
pub open spec fn spec_dense_last(t: nat, interval: int) -> int
    decreases t,
{
    if t == 0 {
        0
    } else if t - spec_dense_last((t - 1) as nat, interval) >= interval {
        t as int
    } else {
        spec_dense_last((t - 1) as nat, interval)
    }
}

/// How many arrivals of `0 ..= t` are admitted.
pub open spec fn spec_dense_admits(t: nat, interval: int) -> int
    decreases t,
{
    if t == 0 {
        1
    } else {
        spec_dense_admits((t - 1) as nat, interval) + if t - spec_dense_last(
            (t - 1) as nat,
            interval,
        ) >= interval {
            1int
        } else {
            0int
        }
    }
}

/// Over a saturated burst lasting `t` instants, the admitted count is
/// exactly `t / interval + 1`: the floor bound of the window, plus the
/// first frame.
pub proof fn lemma_rate_limit_saturated(t: nat, interval: int)
    requires
        interval >= 1,
    ensures
        spec_dense_last(t, interval) == (t as int / interval) * interval,
        spec_dense_admits(t, interval) == t as int / interval + 1,
    decreases t,
{
    if t == 0 {
        vstd::arithmetic::div_mod::lemma_div_basics(interval);
        assert((0int / interval) * interval == 0) by (nonlinear_arith)
            requires
                0int / interval == 0,
        ;
    } else {
        lemma_rate_limit_saturated((t - 1) as nat, interval);
        let k = t as int;
        let q = (k - 1) / interval;
        vstd::arithmetic::div_mod::lemma_fundamental_div_mod(k - 1, interval);
        vstd::arithmetic::div_mod::lemma_mod_bound(k - 1, interval);
        assert(k - 1 == interval * q + (k - 1) % interval);
        if k - q * interval >= interval {
            assert(k == (q + 1) * interval + 0) by (nonlinear_arith)
                requires
                    k - 1 == interval * q + (k - 1) % interval,
                    (k - 1) % interval == interval - 1,
            ;
            assert((k - 1) % interval == interval - 1) by (nonlinear_arith)
                requires
                    k - 1 == interval * q + (k - 1) % interval,
                    0 <= (k - 1) % interval < interval,
                    k - q * interval >= interval,
            ;
            assert(k == (q + 1) * interval) by (nonlinear_arith)
                requires
                    k - 1 == interval * q + (k - 1) % interval,
                    (k - 1) % interval == interval - 1,
            ;
            vstd::arithmetic::div_mod::lemma_fundamental_div_mod_converse(
                k,
                interval,
                q + 1,
                0,
            );
            assert(k / interval == q + 1);
            assert(spec_dense_last(t, interval) == k);
            assert(k == (k / interval) * interval) by (nonlinear_arith)
                requires
                    k / interval == q + 1,
                    k == (q + 1) * interval,
            ;
        } else {
            assert(spec_dense_last(t, interval) == q * interval);
            assert(k == q * interval + (k - q * interval));
            assert(1 <= k - q * interval < interval) by (nonlinear_arith)
                requires
                    k - 1 == interval * q + (k - 1) % interval,
                    0 <= (k - 1) % interval < interval,
                    k - q * interval < interval,
            ;
            vstd::arithmetic::div_mod::lemma_fundamental_div_mod_converse(
                k,
                interval,
                q,
                k - q * interval,
            );
            assert(k / interval == q);
        }
    }
}


/// Buffer of recent processed frames for temporal operations, keeping at
/// most its capacity, oldest dropped first.
pub struct FrameBuffer {
    /// The buffered frames, oldest first
    pub frames: Vec<ProcessedFrame>,
    /// The greatest number of frames kept
    pub capacity: usize,
}

/// How many of the frames finished processing at or after `cutoff_us`.
pub open spec fn spec_window_count(frames: Seq<ProcessedFrame>, cutoff_us: int) -> int
    decreases frames.len(),
{
    if frames.len() == 0 {
        0
    } else {
        spec_window_count(frames.drop_last(), cutoff_us) + if frames.last().processed_at_us
            >= cutoff_us {
            1int
        } else {
            0int
        }
    }
}

impl FrameBuffer {
    /// An empty buffer of the given capacity.
    pub fn new(capacity: usize) -> (r: Self)
        ensures
            r.frames@.len() == 0,
            r.capacity == capacity,
    {
        FrameBuffer { frames: Vec::new(), capacity }
    }

    /// Add a frame; at capacity, the oldest frame leaves first.
    pub fn push(&mut self, frame: ProcessedFrame)
        requires
            old(self).capacity >= 1,
        ensures
            final(self).capacity == old(self).capacity,
            old(self).frames@.len() < old(self).capacity ==> final(self).frames@ == old(
                self,
            ).frames@.push(frame),
            old(self).frames@.len() >= old(self).capacity ==> final(self).frames@ == old(
                self,
            ).frames@.drop_first().push(frame),
    {
        if self.frames.len() >= self.capacity {
            self.frames.remove(0);
            proof {
                assert(self.frames@ =~= old(self).frames@.drop_first());
            }
        }
        self.frames.push(frame);
    }

    /// The newest frame.
    pub fn latest(&self) -> (r: Option<&ProcessedFrame>)
        ensures
            match r {
                Some(f) => self.frames@.len() > 0 && *f == self.frames@.last(),
                None => self.frames@.len() == 0,
            },
    {
        self.frames.last()
    }

    /// The frames that finished processing at or after `cutoff_us`, in
    /// order.
    pub fn frames_in_window<'a>(&'a self, cutoff_us: u64) -> (r: Vec<&'a ProcessedFrame>)
        ensures
            r@.len() == spec_window_count(self.frames@, cutoff_us as int),
            forall|i: int| 0 <= i < r@.len() ==> (#[trigger] r@[i]).processed_at_us >= cutoff_us,
    {
        let mut out: Vec<&ProcessedFrame> = Vec::new();
        let mut i: usize = 0;
        proof {
            assert(self.frames@.take(0) =~= Seq::<ProcessedFrame>::empty());
        }
        while i < self.frames.len()
            invariant
                i <= self.frames@.len(),
                out@.len() == spec_window_count(self.frames@.take(i as int), cutoff_us as int),
                forall|j: int|
                    0 <= j < out@.len() ==> (#[trigger] out@[j]).processed_at_us >= cutoff_us,
            decreases self.frames@.len() - i,
        {
            proof {
                assert(self.frames@.take(i + 1int).drop_last() =~= self.frames@.take(i as int));
                assert(self.frames@.take(i + 1int).last() == self.frames@[i as int]);
            }
            if self.frames[i].processed_at_us >= cutoff_us {
                out.push(&self.frames[i]);
            }
            i = i + 1;
        }
        proof {
            assert(self.frames@.take(self.frames@.len() as int) =~= self.frames@);
        }
        out
    }

    /// Forget every buffered frame.
    pub fn clear(&mut self)
        ensures
            final(self).frames@.len() == 0,
            final(self).capacity == old(self).capacity,
    {
        self.frames.clear();
    }

    /// How many frames are buffered.
    pub fn len(&self) -> (r: usize)
        ensures
            r == self.frames@.len(),
    {
        self.frames.len()
    }

    /// Whether no frame is buffered.
    pub fn is_empty(&self) -> (r: bool)
        ensures
            r == (self.frames@.len() == 0),
    {
        self.frames.len() == 0
    }
}

} // verus!