//! Frame selection: the policy deciding which frames to persist.
//!
//! The decision is a pure function of the event, the per-device counter
//! state and the clock reading handed in by the caller; the contracts of
//! `should_store` state it in full, so replaying the same event against
//! the same state yields the same decision.

use vstd::prelude::*;
use crate::events::{Detection, StorageTriggerEvent, TriggerType, spec_map_get};
use crate::storage_config::FrameSelectionConfig;
use crate::strutil::{
    append_milli_2dp, append_milli_display, append_u64, eq_ignore_ascii_case, push_char,
    spec_eq_ignore_case, spec_milli_2dp, spec_milli_display, spec_u64_dec,
};

verus! {

/// Decision on whether to store a frame.
#[derive(Debug, Clone, PartialEq)]
pub enum StorageDecision {
    /// Store the frame with the given reason
    Store { reason: String },
    /// Skip the frame with the given reason
    Skip { reason: String },
}

/// First counter recorded under `device`.
pub open spec fn spec_lookup(counters: Seq<(String, u64)>, device: Seq<char>) -> Option<u64>
    decreases counters.len(),
{
    if counters.len() == 0 {
        None
    } else if counters[0].0@ == device {
        Some(counters[0].1)
    } else {
        spec_lookup(counters.drop_first(), device)
    }
}

/// Whether a sample observation with the given pre-observation counter
/// stores: the first observation of a device always stores, later ones
/// store when the counter has completed a window of `rate` frames.
pub open spec fn spec_sample_decision(prev: Option<u64>, rate: u64) -> bool
    recommends
        rate >= 1,
{
    match prev {
        Some(c) => c % rate == 0,
        None => true,
    }
}

/// The counter value after one sample observation.
pub open spec fn spec_next_counter(prev: Option<u64>) -> u64 {
    match prev {
        Some(c) => if c == u64::MAX {
            0
        } else {
            (c + 1) as u64
        },
        None => 1,
    }
}

/// Whether the event is older than the configured bound at clock reading
/// `now_ms` (milliseconds since the epoch).  The comparison is exact to
/// the millisecond: an event is too old once its age exceeds the bound
/// by any amount.
pub open spec fn spec_too_old(ts_ms: int, now_ms: int, max_age_secs: int) -> bool {
    now_ms > ts_ms && now_ms - ts_ms > max_age_secs * 1000
}

/// Detections whose confidence reaches `min`, in order.
pub open spec fn spec_conf_filter(dets: Seq<Detection>, min: int) -> Seq<Detection>
    decreases dets.len(),
{
    if dets.len() == 0 {
        Seq::empty()
    } else {
        spec_conf_filter(dets.drop_last(), min) + (if dets.last().confidence_milli >= min {
            seq![dets.last()]
        } else {
            Seq::empty()
        })
    }
}

/// Whether the detection's type equals one of the configured types up to
/// ASCII case.
pub open spec fn spec_type_match(d: Detection, types: Seq<String>) -> bool {
    exists|j: int|
        0 <= j < types.len() && spec_eq_ignore_case((#[trigger] types[j])@, d.detection_type@)
}

/// Detections whose type is among the configured types, in order.
pub open spec fn spec_type_filter(dets: Seq<Detection>, types: Seq<String>) -> Seq<Detection>
    decreases dets.len(),
{
    if dets.len() == 0 {
        Seq::empty()
    } else {
        spec_type_filter(dets.drop_last(), types) + (if spec_type_match(dets.last(), types) {
            seq![dets.last()]
        } else {
            Seq::empty()
        })
    }
}

/// `type(confidence)` for one detection, the confidence with two decimals.
pub open spec fn spec_summary_item(d: Detection) -> Seq<char> {
    d.detection_type@ + seq!['('] + spec_milli_2dp(d.confidence_milli as int) + seq![')']
}

/// Summary items joined by a comma and a space.
pub open spec fn spec_summary(dets: Seq<Detection>) -> Seq<char>
    decreases dets.len(),
{
    if dets.len() == 0 {
        Seq::empty()
    } else if dets.len() == 1 {
        spec_summary_item(dets[0])
    } else {
        spec_summary(dets.drop_last()) + ", "@ + spec_summary_item(dets.last())
    }
}

/// The configured type list rendered as a quoted, bracketed list.
pub open spec fn spec_quoted_list(types: Seq<String>) -> Seq<char>
    decreases types.len(),
{
    if types.len() == 0 {
        Seq::empty()
    } else if types.len() == 1 {
        seq!['"'] + types[0]@ + seq!['"']
    } else {
        spec_quoted_list(types.drop_last()) + ", "@ + seq!['"'] + types.last()@ + seq!['"']
    }
}

pub open spec fn spec_debug_types(types: Seq<String>) -> Seq<char> {
    seq!['['] + spec_quoted_list(types) + seq![']']
}

/// The alert description: the `alert_type` metadata value if present.
pub open spec fn spec_alert_info(event: StorageTriggerEvent) -> Seq<char> {
    match event.metadata {
        Some(entries) => match spec_map_get(entries@, "alert_type"@) {
            Some(v) => v,
            None => "unknown"@,
        },
        None => "unknown"@,
    }
}

/// Whether the event is stored, given the configuration, the counter
/// state before the observation, and the clock reading.
pub open spec fn spec_store(
    cfg: FrameSelectionConfig,
    counters: Seq<(String, u64)>,
    event: StorageTriggerEvent,
    now_ms: int,
) -> bool {
    if spec_too_old(event.timestamp.spec_epoch_millis(), now_ms, cfg.max_frame_age_secs as int) {
        false
    } else {
        match event.trigger_type {
            TriggerType::Detection => {
                let kept = spec_conf_filter(event.detections@, cfg.min_confidence_milli as int);
                cfg.store_detections && event.detections@.len() > 0 && kept.len() > 0 && (
                cfg.detection_types@.len() == 0 || spec_type_filter(
                    kept,
                    cfg.detection_types@,
                ).len() > 0)
            },
            TriggerType::Sample => cfg.store_samples && spec_sample_decision(
                spec_lookup(counters, event.device_id@),
                cfg.sample_rate as u64,
            ),
            TriggerType::Debug => cfg.store_debug,
            TriggerType::Manual => true,
            TriggerType::Alert => true,
        }
    }
}

/// The reason text that accompanies the decision.
pub open spec fn spec_reason(
    cfg: FrameSelectionConfig,
    counters: Seq<(String, u64)>,
    event: StorageTriggerEvent,
    now_ms: int,
) -> Seq<char> {
    let ts = event.timestamp.spec_epoch_millis();
    if spec_too_old(ts, now_ms, cfg.max_frame_age_secs as int) {
        "Frame too old: "@ + spec_u64_dec((now_ms - ts) / 1000) + "s > max "@ + spec_u64_dec(
            cfg.max_frame_age_secs as int,
        ) + "s"@
    } else {
        match event.trigger_type {
            TriggerType::Detection => {
                let kept = spec_conf_filter(event.detections@, cfg.min_confidence_milli as int);
                if !cfg.store_detections {
                    "Detection frame storage disabled"@
                } else if event.detections@.len() == 0 {
                    "No detections in detection-triggered frame"@
                } else if kept.len() == 0 {
                    "No detections above confidence threshold "@ + spec_milli_display(
                        cfg.min_confidence_milli as int,
                    )
                } else if cfg.detection_types@.len() > 0 {
                    let matched = spec_type_filter(kept, cfg.detection_types@);
                    if matched.len() == 0 {
                        "No detections matching configured types: "@ + spec_debug_types(
                            cfg.detection_types@,
                        )
                    } else {
                        "Matching detections: "@ + spec_summary(matched)
                    }
                } else {
                    "Detections: "@ + spec_summary(kept)
                }
            },
            TriggerType::Sample => {
                if !cfg.store_samples {
                    "Sample frame storage disabled"@
                } else if spec_sample_decision(
                    spec_lookup(counters, event.device_id@),
                    cfg.sample_rate as u64,
                ) {
                    "Periodic sample (1 per "@ + spec_u64_dec(cfg.sample_rate as int) + " frames)"@
                } else {
                    "Not sampled (rate: 1 per "@ + spec_u64_dec(cfg.sample_rate as int)
                        + " frames)"@
                }
            },
            TriggerType::Debug => {
                if cfg.store_debug {
                    "Debug frame"@
                } else {
                    "Debug frame storage disabled"@
                }
            },
            TriggerType::Manual => "Manual trigger"@,
            TriggerType::Alert => "Alert: "@ + spec_alert_info(event),
        }
    }
}

/// Whether this call observes (and so advances) the device's counter.
pub open spec fn spec_counts_sample(
    cfg: FrameSelectionConfig,
    event: StorageTriggerEvent,
    now_ms: int,
) -> bool {
    &&& !spec_too_old(event.timestamp.spec_epoch_millis(), now_ms, cfg.max_frame_age_secs as int)
    &&& event.trigger_type == TriggerType::Sample
    &&& cfg.store_samples
}

/// Frame selector that decides which frames to store.
pub struct FrameSelector {
    /// The selection policy
    pub config: FrameSelectionConfig,
    /// Sample counters per device; use `get_device_counter` to read one
    pub counters: Vec<(String, u64)>,
}

impl FrameSelector {
    /// No two counters recorded under one device.
    pub open spec fn wf(self) -> bool {
        forall|i: int, j: int|
            0 <= i < j < self.counters@.len() ==> (#[trigger] self.counters@[i]).0@ != (
            #[trigger] self.counters@[j]).0@
    }

    pub open spec fn spec_counters(self) -> Seq<(String, u64)> {
        self.counters@
    }

    /// Create a new frame selector with the given configuration.
    pub fn new(config: FrameSelectionConfig) -> (r: Self)
        ensures
            r.wf(),
            r.config == config,
            r.spec_counters().len() == 0,
    {
        FrameSelector { config, counters: Vec::new() }
    }

    /// Current counter value for a device.
    pub fn get_device_counter(&self, device_id: &str) -> (r: Option<u64>)
        ensures
            r == spec_lookup(self.spec_counters(), device_id@),
    {
        match find_counter(&self.counters, device_id) {
            Some(i) => Some(self.counters[i].1),
            None => None,
        }
    }

    /// Forget the counter of a device.
    pub fn reset_device_counter(&mut self, device_id: &str)
        requires
            old(self).wf(),
        ensures
            final(self).wf(),
            final(self).config == old(self).config,
            spec_lookup(final(self).spec_counters(), device_id@) is None,
            forall|d: Seq<char>|
                d != device_id@ ==> #[trigger] spec_lookup(final(self).spec_counters(), d)
                    == spec_lookup(old(self).spec_counters(), d),
    {
        match find_counter(&self.counters, device_id) {
            Some(i) => {
                proof {
                    lemma_lookup_remove(self.counters@, i as int);
                }
                self.counters.remove(i);
            },
            None => {},
        }
    }
}

/// Index of the first counter entry of `device`.
fn find_counter(counters: &Vec<(String, u64)>, device: &str) -> (r: Option<usize>)
    ensures
        match r {
            Some(i) => i < counters@.len() && counters@[i as int].0@ == device@ && spec_lookup(
                counters@,
                device@,
            ) == Some(counters@[i as int].1) && (forall|j: int|
                0 <= j < i ==> (#[trigger] counters@[j]).0@ != device@),
            None => spec_lookup(counters@, device@) is None,
        },
{
    let d: String = device.to_owned();
    let mut i: usize = 0;
    proof {
        assert(counters@.skip(0) =~= counters@);
    }
    while i < counters.len()
        invariant
            d@ == device@,
            i <= counters@.len(),
            spec_lookup(counters@, device@) == spec_lookup(counters@.skip(i as int), device@),
            forall|j: int| 0 <= j < i ==> (#[trigger] counters@[j]).0@ != device@,
        decreases counters@.len() - i,
    {
        if counters[i].0 == d {
            proof {
                assert(counters@.skip(i as int)[0] == counters@[i as int]);
            }
            return Some(i);
        }
        proof {
            assert(counters@.skip(i as int).drop_first() =~= counters@.skip(i + 1int));
            assert(counters@.skip(i as int)[0] == counters@[i as int]);
        }
        i = i + 1;
    }
    proof {
        assert(counters@.skip(i as int).len() == 0);
    }
    None
}

/// Replacing the entry at a first-match index changes the lookup of that
/// key alone.
proof fn lemma_lookup_update(s: Seq<(String, u64)>, i: int, e: (String, u64), d: Seq<char>)
    requires
        0 <= i < s.len(),
        e.0@ == s[i].0@,
        forall|j: int| 0 <= j < i ==> (#[trigger] s[j]).0@ != s[i].0@,
    ensures
        spec_lookup(s.update(i, e), d) == if d == s[i].0@ {
            Some(e.1)
        } else {
            spec_lookup(s, d)
        },
    decreases i,
{
    let t = s.update(i, e);
    if i == 0 {
        if d == s[0].0@ {
            assert(t[0] == e);
        } else {
            assert(t[0] == e);
            assert(t.drop_first() =~= s.drop_first());
        }
    } else {
        assert(t[0] == s[0]);
        assert(t.drop_first() =~= s.drop_first().update(i - 1, e));
        assert(s.drop_first()[i - 1] == s[i]);
        assert forall|j: int| 0 <= j < i - 1 implies (#[trigger] s.drop_first()[j]).0@
            != s.drop_first()[i - 1].0@ by {
            assert(s.drop_first()[j] == s[j + 1]);
        }
        lemma_lookup_update(s.drop_first(), i - 1, e, d);
        if d == s[0].0@ {
            assert(spec_lookup(t, d) == Some(t[0].1));
        }
    }
}

/// Appending an entry of a fresh key changes the lookup of that key alone.
proof fn lemma_lookup_push(s: Seq<(String, u64)>, e: (String, u64), d: Seq<char>)
    requires
        spec_lookup(s, e.0@) is None,
    ensures
        spec_lookup(s.push(e), d) == if d == e.0@ {
            Some(e.1)
        } else {
            spec_lookup(s, d)
        },
    decreases s.len(),
{
    let t = s.push(e);
    if s.len() == 0 {
        assert(t[0] == e);
        if d != e.0@ {
            assert(spec_lookup(t, d) == spec_lookup(t.drop_first(), d));
            assert(t.drop_first() =~= Seq::<(String, u64)>::empty());
        }
    } else {
        assert(t[0] == s[0]);
        assert(t.drop_first() =~= s.drop_first().push(e));
        lemma_lookup_push(s.drop_first(), e, d);
        if s[0].0@ == e.0@ {
            assert(spec_lookup(s, e.0@) == Some(s[0].1));
        }
    }
}

/// Removing the first-match entry of a unique-keyed list leaves no entry
/// of that key and every other key's lookup unchanged.
proof fn lemma_lookup_remove(s: Seq<(String, u64)>, i: int)
    requires
        0 <= i < s.len(),
        forall|p: int, q: int|
            0 <= p < q < s.len() ==> (#[trigger] s[p]).0@ != (#[trigger] s[q]).0@,
    ensures
        spec_lookup(s.remove(i), s[i].0@) is None,
        forall|d: Seq<char>|
            d != s[i].0@ ==> #[trigger] spec_lookup(s.remove(i), d) == spec_lookup(s, d),
    decreases i,
{
    let t = s.remove(i);
    if i == 0 {
        assert(t =~= s.drop_first());
        lemma_lookup_absent(s.drop_first(), s[0].0@);
        assert forall|d: Seq<char>| d != s[0].0@ implies #[trigger] spec_lookup(t, d)
            == spec_lookup(s, d) by {
            assert(spec_lookup(s, d) == spec_lookup(s.drop_first(), d));
        }
    } else {
        assert(t[0] == s[0]);
        assert(t.drop_first() =~= s.drop_first().remove(i - 1));
        assert(s.drop_first()[i - 1] == s[i]);
        assert forall|p: int, q: int| 0 <= p < q < s.drop_first().len() implies (
        #[trigger] s.drop_first()[p]).0@ != (#[trigger] s.drop_first()[q]).0@ by {
            assert(s.drop_first()[p] == s[p + 1]);
            assert(s.drop_first()[q] == s[q + 1]);
        }
        lemma_lookup_remove(s.drop_first(), i - 1);
        assert(s[0].0@ != s[i].0@);
        assert(spec_lookup(t, s[i].0@) == spec_lookup(t.drop_first(), s[i].0@));
        assert(spec_lookup(t.drop_first(), s[i].0@) is None);
        assert forall|d: Seq<char>| d != s[i].0@ implies #[trigger] spec_lookup(t, d)
            == spec_lookup(s, d) by {
            if d == s[0].0@ {
                assert(spec_lookup(t, d) == Some(t[0].1));
                assert(spec_lookup(s, d) == Some(s[0].1));
            } else {
                assert(spec_lookup(t, d) == spec_lookup(t.drop_first(), d));
                assert(spec_lookup(s, d) == spec_lookup(s.drop_first(), d));
                assert(spec_lookup(s.drop_first().remove(i - 1), d) == spec_lookup(
                    s.drop_first(),
                    d,
                ));
            }
        }
    }
}

/// A key that heads no entry looks up to nothing.
proof fn lemma_lookup_absent(s: Seq<(String, u64)>, d: Seq<char>)
    requires
        forall|j: int| 0 <= j < s.len() ==> (#[trigger] s[j]).0@ != d,
    ensures
        spec_lookup(s, d) is None,
    decreases s.len(),
{
    if s.len() > 0 {
        assert forall|j: int| 0 <= j < s.drop_first().len() implies (
        #[trigger] s.drop_first()[j]).0@ != d by {
            assert(s.drop_first()[j] == s[j + 1]);
        }
        lemma_lookup_absent(s.drop_first(), d);
    }
}

impl FrameSelector {
    /// Determine whether a frame is stored.  The decision and its reason
    /// are functions of the event, the counter state before the call and
    /// the clock reading alone; the counter of the event's device
    /// advances exactly when a sample observation is counted.
    pub fn should_store(&mut self, event: &StorageTriggerEvent, now_ms: u64) -> (r: StorageDecision)
        requires
            old(self).wf(),
            old(self).config.sample_rate >= 1,
            event.timestamp.wf(),
        ensures
            final(self).wf(),
            final(self).config == old(self).config,
            match r {
                StorageDecision::Store { reason } => spec_store(
                    old(self).config,
                    old(self).spec_counters(),
                    *event,
                    now_ms as int,
                ) && reason@ == spec_reason(
                    old(self).config,
                    old(self).spec_counters(),
                    *event,
                    now_ms as int,
                ),
                StorageDecision::Skip { reason } => !spec_store(
                    old(self).config,
                    old(self).spec_counters(),
                    *event,
                    now_ms as int,
                ) && reason@ == spec_reason(
                    old(self).config,
                    old(self).spec_counters(),
                    *event,
                    now_ms as int,
                ),
            },
            spec_counts_sample(old(self).config, *event, now_ms as int) ==> spec_lookup(
                final(self).spec_counters(),
                event.device_id@,
            ) == Some(
                spec_next_counter(spec_lookup(old(self).spec_counters(), event.device_id@)),
            ) && (forall|d: Seq<char>|
                d != event.device_id@ ==> #[trigger] spec_lookup(final(self).spec_counters(), d)
                    == spec_lookup(old(self).spec_counters(), d)),
            !spec_counts_sample(old(self).config, *event, now_ms as int) ==> final(
                self
            ).spec_counters() == old(self).spec_counters(),
    {
        let ts = event.timestamp.epoch_millis();
        let max_age = self.config.max_frame_age_secs;
        if now_ms > ts && (now_ms - ts) as u128 > max_age as u128 * 1000 {
            let age_secs = (now_ms - ts) / 1000;
            let mut reason = String::from_str("Frame too old: ");
            append_u64(&mut reason, age_secs);
            reason.append("s > max ");
            append_u64(&mut reason, max_age);
            reason.append("s");
            proof {
                assert(reason@ =~= spec_reason(
                    self.config,
                    self.spec_counters(),
                    *event,
                    now_ms as int,
                ));
            }
            return StorageDecision::Skip { reason };
        }
        match event.trigger_type {
            TriggerType::Detection => self.evaluate_detection_frame(event),
            TriggerType::Sample => self.evaluate_sample_frame(event),
            TriggerType::Debug => self.evaluate_debug_frame(event),
            TriggerType::Manual => self.evaluate_manual_frame(event),
            TriggerType::Alert => self.evaluate_alert_frame(event),
        }
    }

    /// Evaluate a detection-triggered frame against the confidence and
    /// type filters.
    fn evaluate_detection_frame(&self, event: &StorageTriggerEvent) -> (r: StorageDecision)
        requires
            event.trigger_type == TriggerType::Detection,
        ensures
            detection_decision_ok(self.config, *event, r),
    {
        if !self.config.store_detections {
            return StorageDecision::Skip {
                reason: String::from_str("Detection frame storage disabled"),
            };
        }
        if event.detections.len() == 0 {
            return StorageDecision::Skip {
                reason: String::from_str("No detections in detection-triggered frame"),
            };
        }
        let min = self.config.min_confidence_milli;
        let kept_count = count_conf(&event.detections, min);
        if kept_count == 0 {
            let mut reason = String::from_str("No detections above confidence threshold ");
            append_milli_display(&mut reason, min);
            return StorageDecision::Skip { reason };
        }
        if self.config.detection_types.len() > 0 {
            let matched = summarize_matched(&event.detections, min, &self.config.detection_types);
            match matched {
                Some(summary) => {
                    let mut reason = String::from_str("Matching detections: ");
                    reason.append(summary.as_str());
                    proof {
                        assert(reason@ =~= "Matching detections: "@ + summary@);
                    }
                    return StorageDecision::Store { reason };
                },
                None => {
                    let mut reason = String::from_str("No detections matching configured types: ");
                    let listed = quoted_list(&self.config.detection_types);
                    reason.append(listed.as_str());
                    proof {
                        assert(reason@ =~= "No detections matching configured types: "@
                            + spec_debug_types(self.config.detection_types@));
                    }
                    return StorageDecision::Skip { reason };
                },
            }
        }
        let summary = summarize_conf(&event.detections, min);
        let mut reason = String::from_str("Detections: ");
        reason.append(summary.as_str());
        proof {
            assert(reason@ =~= "Detections: "@ + summary@);
        }
        StorageDecision::Store { reason }
    }

    /// Evaluate a sample frame against the per-device cadence.
    fn evaluate_sample_frame(&mut self, event: &StorageTriggerEvent) -> (r: StorageDecision)
        requires
            old(self).wf(),
            old(self).config.sample_rate >= 1,
            event.trigger_type == TriggerType::Sample,
        ensures
            final(self).wf(),
            final(self).config == old(self).config,
            sample_decision_ok(old(self).config, old(self).spec_counters(), *event, r),
            old(self).config.store_samples ==> spec_lookup(
                final(self).spec_counters(),
                event.device_id@,
            ) == Some(
                spec_next_counter(spec_lookup(old(self).spec_counters(), event.device_id@)),
            ) && (forall|d: Seq<char>|
                d != event.device_id@ ==> #[trigger] spec_lookup(final(self).spec_counters(), d)
                    == spec_lookup(old(self).spec_counters(), d)),
            !old(self).config.store_samples ==> final(self).spec_counters() == old(
                self
            ).spec_counters(),
    {
        if !self.config.store_samples {
            return StorageDecision::Skip {
                reason: String::from_str("Sample frame storage disabled"),
            };
        }
        let stores = self.check_sample_rate(&event.device_id);
        let rate = self.config.sample_rate;
        if stores {
            let mut reason = String::from_str("Periodic sample (1 per ");
            append_u64(&mut reason, rate as u64);
            reason.append(" frames)");
            proof {
                assert(reason@ =~= "Periodic sample (1 per "@ + spec_u64_dec(rate as int)
                    + " frames)"@);
            }
            StorageDecision::Store { reason }
        } else {
            let mut reason = String::from_str("Not sampled (rate: 1 per ");
            append_u64(&mut reason, rate as u64);
            reason.append(" frames)");
            proof {
                assert(reason@ =~= "Not sampled (rate: 1 per "@ + spec_u64_dec(rate as int)
                    + " frames)"@);
            }
            StorageDecision::Skip { reason }
        }
    }

    /// Observe one sample for the device: report whether it stores and
    /// advance the device's counter.
    fn check_sample_rate(&mut self, device_id: &str) -> (r: bool)
        requires
            old(self).wf(),
            old(self).config.sample_rate >= 1,
        ensures
            final(self).wf(),
            final(self).config == old(self).config,
            r == spec_sample_decision(
                spec_lookup(old(self).spec_counters(), device_id@),
                old(self).config.sample_rate as u64,
            ),
            spec_lookup(final(self).spec_counters(), device_id@) == Some(
                spec_next_counter(spec_lookup(old(self).spec_counters(), device_id@)),
            ),
            forall|d: Seq<char>|
                d != device_id@ ==> #[trigger] spec_lookup(final(self).spec_counters(), d)
                    == spec_lookup(old(self).spec_counters(), d),
    {
        match find_counter(&self.counters, device_id) {
            Some(i) => {
                let count = self.counters[i].1;
                let next: u64 = if count == u64::MAX {
                    0
                } else {
                    count + 1
                };
                let key = self.counters[i].0.clone();
                proof {
                    lemma_lookup_update(
                        self.counters@,
                        i as int,
                        (key, next),
                        self.counters@[i as int].0@,
                    );
                }
                let ghost olds = self.counters@;
                self.counters.set(i, (key, next));
                proof {
                    assert forall|d: Seq<char>| d != device_id@ implies #[trigger] spec_lookup(
                        self.counters@,
                        d,
                    ) == spec_lookup(olds, d) by {
                        lemma_lookup_update(olds, i as int, (key, next), d);
                    }
                    assert forall|p: int, q: int|
                        0 <= p < q < self.counters@.len() implies (
                    #[trigger] self.counters@[p]).0@ != (#[trigger] self.counters@[q]).0@ by {
                        assert(olds[p].0@ != olds[q].0@);
                    }
                }
                count % (self.config.sample_rate as u64) == 0
            },
            None => {
                let key: String = device_id.to_owned();
                proof {
                    lemma_lookup_push(self.counters@, (key, 1u64), device_id@);
                }
                let ghost olds = self.counters@;
                self.counters.push((key, 1));
                proof {
                    assert forall|d: Seq<char>| d != device_id@ implies #[trigger] spec_lookup(
                        self.counters@,
                        d,
                    ) == spec_lookup(olds, d) by {
                        lemma_lookup_push(olds, (key, 1u64), d);
                    }
                    assert forall|p: int, q: int|
                        0 <= p < q < self.counters@.len() implies (
                    #[trigger] self.counters@[p]).0@ != (#[trigger] self.counters@[q]).0@ by {
                        if q < self.counters@.len() - 1 {
                            assert(olds[p].0@ != olds[q].0@);
                        } else {
                            assert(self.counters@[q].0@ == device_id@);
                            if spec_lookup(olds, device_id@) is Some {
                                assert(false);
                            }
                            lemma_lookup_found(olds, p);
                        }
                    }
                }
                true
            },
        }
    }

    /// Evaluate a debug frame.
    fn evaluate_debug_frame(&self, event: &StorageTriggerEvent) -> (r: StorageDecision)
        ensures
            match r {
                StorageDecision::Store { reason } => self.config.store_debug && reason@
                    == "Debug frame"@,
                StorageDecision::Skip { reason } => !self.config.store_debug && reason@
                    == "Debug frame storage disabled"@,
            },
    {
        if !self.config.store_debug {
            return StorageDecision::Skip {
                reason: String::from_str("Debug frame storage disabled"),
            };
        }
        StorageDecision::Store { reason: String::from_str("Debug frame") }
    }

    /// Manual triggers are always stored.
    fn evaluate_manual_frame(&self, event: &StorageTriggerEvent) -> (r: StorageDecision)
        ensures
            match r {
                StorageDecision::Store { reason } => reason@ == "Manual trigger"@,
                StorageDecision::Skip { .. } => false,
            },
    {
        StorageDecision::Store { reason: String::from_str("Manual trigger") }
    }

    /// Alert frames are always stored; the reason names the alert type.
    fn evaluate_alert_frame(&self, event: &StorageTriggerEvent) -> (r: StorageDecision)
        ensures
            match r {
                StorageDecision::Store { reason } => reason@ == "Alert: "@ + spec_alert_info(
                    *event,
                ),
                StorageDecision::Skip { .. } => false,
            },
    {
        let mut reason = String::from_str("Alert: ");
        match &event.metadata {
            Some(entries) => {
                match crate::events::map_get(entries, "alert_type") {
                    Some(v) => {
                        reason.append(v.as_str());
                    },
                    None => {
                        reason.append("unknown");
                    },
                }
            },
            None => {
                reason.append("unknown");
            },
        }
        StorageDecision::Store { reason }
    }
}

/// What a correct detection evaluation returns, given that the age gate
/// has already passed.
pub open spec fn detection_decision_ok(
    cfg: FrameSelectionConfig,
    event: StorageTriggerEvent,
    r: StorageDecision,
) -> bool {
    let kept = spec_conf_filter(event.detections@, cfg.min_confidence_milli as int);
    let stores = cfg.store_detections && event.detections@.len() > 0 && kept.len() > 0 && (
    cfg.detection_types@.len() == 0 || spec_type_filter(kept, cfg.detection_types@).len() > 0);
    let why = if !cfg.store_detections {
        "Detection frame storage disabled"@
    } else if event.detections@.len() == 0 {
        "No detections in detection-triggered frame"@
    } else if kept.len() == 0 {
        "No detections above confidence threshold "@ + spec_milli_display(
            cfg.min_confidence_milli as int,
        )
    } else if cfg.detection_types@.len() > 0 {
        let matched = spec_type_filter(kept, cfg.detection_types@);
        if matched.len() == 0 {
            "No detections matching configured types: "@ + spec_debug_types(cfg.detection_types@)
        } else {
            "Matching detections: "@ + spec_summary(matched)
        }
    } else {
        "Detections: "@ + spec_summary(kept)
    };
    match r {
        StorageDecision::Store { reason } => stores && reason@ == why,
        StorageDecision::Skip { reason } => !stores && reason@ == why,
    }
}

/// What a correct sample evaluation returns, given that the age gate has
/// already passed.
pub open spec fn sample_decision_ok(
    cfg: FrameSelectionConfig,
    counters: Seq<(String, u64)>,
    event: StorageTriggerEvent,
    r: StorageDecision,
) -> bool {
    let stores = cfg.store_samples && spec_sample_decision(
        spec_lookup(counters, event.device_id@),
        cfg.sample_rate as u64,
    );
    let why = if !cfg.store_samples {
        "Sample frame storage disabled"@
    } else if spec_sample_decision(spec_lookup(counters, event.device_id@), cfg.sample_rate as u64) {
        "Periodic sample (1 per "@ + spec_u64_dec(cfg.sample_rate as int) + " frames)"@
    } else {
        "Not sampled (rate: 1 per "@ + spec_u64_dec(cfg.sample_rate as int) + " frames)"@
    };
    match r {
        StorageDecision::Store { reason } => stores && reason@ == why,
        StorageDecision::Skip { reason } => !stores && reason@ == why,
    }
}

/// A found index contradicts an absent lookup.
proof fn lemma_lookup_found(s: Seq<(String, u64)>, i: int)
    requires
        0 <= i < s.len(),
    ensures
        spec_lookup(s, s[i].0@) is Some,
    decreases i,
{
    if i > 0 && s[0].0@ != s[i].0@ {
        assert(s.drop_first()[i - 1] == s[i]);
        lemma_lookup_found(s.drop_first(), i - 1);
    }
}

/// How many detections reach the confidence threshold.
fn count_conf(dets: &Vec<Detection>, min: u32) -> (r: usize)
    ensures
        r == spec_conf_filter(dets@, min as int).len(),
{
    let mut count: usize = 0;
    let mut i: usize = 0;
    proof {
        assert(dets@.take(0) =~= Seq::<Detection>::empty());
    }
    while i < dets.len()
        invariant
            i <= dets@.len(),
            count == spec_conf_filter(dets@.take(i as int), min as int).len(),
            count <= i,
        decreases dets@.len() - i,
    {
        proof {
            assert(dets@.take(i + 1int).drop_last() =~= dets@.take(i as int));
            assert(dets@.take(i + 1int).last() == dets@[i as int]);
        }
        if dets[i].confidence_milli >= min {
            count = count + 1;
        }
        i = i + 1;
    }
    proof {
        assert(dets@.take(dets@.len() as int) =~= dets@);
    }
    count
}

/// Summary of the detections that reach the confidence threshold.
fn summarize_conf(dets: &Vec<Detection>, min: u32) -> (r: String)
    ensures
        r@ == spec_summary(spec_conf_filter(dets@, min as int)),
{
    let mut out = String::new();
    let mut count: usize = 0;
    let mut i: usize = 0;
    proof {
        assert(dets@.take(0) =~= Seq::<Detection>::empty());
    }
    while i < dets.len()
        invariant
            i <= dets@.len(),
            count == spec_conf_filter(dets@.take(i as int), min as int).len(),
            count <= i,
            out@ == spec_summary(spec_conf_filter(dets@.take(i as int), min as int)),
        decreases dets@.len() - i,
    {
        proof {
            assert(dets@.take(i + 1int).drop_last() =~= dets@.take(i as int));
            assert(dets@.take(i + 1int).last() == dets@[i as int]);
        }
        if dets[i].confidence_milli >= min {
            if count > 0 {
                out.append(", ");
            }
            out.append(dets[i].detection_type.as_str());
            push_char(&mut out, '(');
            append_milli_2dp(&mut out, dets[i].confidence_milli);
            push_char(&mut out, ')');
            proof {
                let kept = spec_conf_filter(dets@.take(i as int), min as int);
                let kept2 = spec_conf_filter(dets@.take(i + 1int), min as int);
                assert(kept2 =~= kept + seq![dets@[i as int]]);
                assert(kept2.drop_last() =~= kept);
                assert(kept2.last() == dets@[i as int]);
                assert(out@ =~= spec_summary(kept2));
            }
            count = count + 1;
        } else {
            proof {
                assert(spec_conf_filter(dets@.take(i + 1int), min as int) =~= spec_conf_filter(
                    dets@.take(i as int),
                    min as int,
                ));
            }
        }
        i = i + 1;
    }
    proof {
        assert(dets@.take(dets@.len() as int) =~= dets@);
    }
    out
}

/// Summary of the detections that reach the threshold and match one of
/// the configured types, or `None` when no detection does.
fn summarize_matched(dets: &Vec<Detection>, min: u32, types: &Vec<String>) -> (r: Option<String>)
    ensures
        match r {
            Some(s) => spec_type_filter(spec_conf_filter(dets@, min as int), types@).len() > 0
                && s@ == spec_summary(spec_type_filter(spec_conf_filter(dets@, min as int), types@)),
            None => spec_type_filter(spec_conf_filter(dets@, min as int), types@).len() == 0,
        },
{
    let mut out = String::new();
    let mut count: usize = 0;
    let mut i: usize = 0;
    proof {
        assert(dets@.take(0) =~= Seq::<Detection>::empty());
        assert(spec_conf_filter(dets@.take(0), min as int) =~= Seq::<Detection>::empty());
    }
    while i < dets.len()
        invariant
            i <= dets@.len(),
            count == spec_type_filter(
                spec_conf_filter(dets@.take(i as int), min as int),
                types@,
            ).len(),
            count <= i,
            out@ == spec_summary(
                spec_type_filter(spec_conf_filter(dets@.take(i as int), min as int), types@),
            ),
        decreases dets@.len() - i,
    {
        proof {
            assert(dets@.take(i + 1int).drop_last() =~= dets@.take(i as int));
            assert(dets@.take(i + 1int).last() == dets@[i as int]);
        }
        let conf_ok = dets[i].confidence_milli >= min;
        let type_ok = matches_any_type(&dets[i], types);
        if conf_ok && type_ok {
            if count > 0 {
                out.append(", ");
            }
            out.append(dets[i].detection_type.as_str());
            push_char(&mut out, '(');
            append_milli_2dp(&mut out, dets[i].confidence_milli);
            push_char(&mut out, ')');
            proof {
                lemma_matched_step(dets@, i as int, min as int, types@);
                let m1 = spec_type_filter(
                    spec_conf_filter(dets@.take(i as int), min as int),
                    types@,
                );
                let m2 = spec_type_filter(
                    spec_conf_filter(dets@.take(i + 1int), min as int),
                    types@,
                );
                assert(m2 =~= m1 + seq![dets@[i as int]]);
                assert(m2.drop_last() =~= m1);
                assert(out@ =~= spec_summary(m2));
            }
            count = count + 1;
        } else {
            proof {
                lemma_matched_step(dets@, i as int, min as int, types@);
                assert(spec_type_filter(
                    spec_conf_filter(dets@.take(i + 1int), min as int),
                    types@,
                ) =~= spec_type_filter(
                    spec_conf_filter(dets@.take(i as int), min as int),
                    types@,
                ));
            }
        }
        i = i + 1;
    }
    proof {
        assert(dets@.take(dets@.len() as int) =~= dets@);
    }
    if count > 0 {
        Some(out)
    } else {
        None
    }
}

/// One filtering step: extending the prefix by one detection extends the
/// doubly filtered sequence exactly when both filters pass.
proof fn lemma_matched_step(dets: Seq<Detection>, i: int, min: int, types: Seq<String>)
    requires
        0 <= i < dets.len(),
    ensures
        spec_type_filter(spec_conf_filter(dets.take(i + 1), min), types) == if dets[i].confidence_milli
            >= min && spec_type_match(dets[i], types) {
            spec_type_filter(spec_conf_filter(dets.take(i), min), types) + seq![dets[i]]
        } else {
            spec_type_filter(spec_conf_filter(dets.take(i), min), types)
        },
{
    assert(dets.take(i + 1).drop_last() =~= dets.take(i));
    assert(dets.take(i + 1).last() == dets[i]);
    let kept = spec_conf_filter(dets.take(i), min);
    if dets[i].confidence_milli >= min {
        let kept2 = spec_conf_filter(dets.take(i + 1), min);
        assert(kept2 =~= kept + seq![dets[i]]);
        assert(kept2.drop_last() =~= kept);
        assert(kept2.last() == dets[i]);
        if spec_type_match(dets[i], types) {
            assert(spec_type_filter(kept2, types) =~= spec_type_filter(kept, types)
                + seq![dets[i]]);
        } else {
            assert(spec_type_filter(kept2, types) =~= spec_type_filter(kept, types));
        }
    } else {
        assert(spec_conf_filter(dets.take(i + 1), min) =~= kept);
    }
}

/// Whether the detection's type matches any configured type, up to case.
fn matches_any_type(d: &Detection, types: &Vec<String>) -> (r: bool)
    ensures
        r == spec_type_match(*d, types@),
{
    let mut j: usize = 0;
    while j < types.len()
        invariant
            j <= types@.len(),
            forall|t: int|
                0 <= t < j ==> !spec_eq_ignore_case((#[trigger] types@[t])@, d.detection_type@),
        decreases types@.len() - j,
    {
        if eq_ignore_ascii_case(types[j].as_str(), d.detection_type.as_str()) {
            return true;
        }
        j = j + 1;
    }
    false
}

/// The configured type list as `["a", "b"]`.
fn quoted_list(types: &Vec<String>) -> (r: String)
    ensures
        r@ == spec_debug_types(types@),
{
    let mut out = String::new();
    push_char(&mut out, '[');
    let mut i: usize = 0;
    proof {
        assert(types@.take(0) =~= Seq::<String>::empty());
        assert(out@ =~= seq!['['] + spec_quoted_list(types@.take(0)));
    }
    while i < types.len()
        invariant
            i <= types@.len(),
            out@ == seq!['['] + spec_quoted_list(types@.take(i as int)),
        decreases types@.len() - i,
    {
        if i > 0 {
            out.append(", ");
        }
        push_char(&mut out, '"');
        out.append(types[i].as_str());
        push_char(&mut out, '"');
        proof {
            assert(types@.take(i + 1int).drop_last() =~= types@.take(i as int));
            assert(types@.take(i + 1int).last() == types@[i as int]);
            assert(types@.take(i + 1int)[0] == types@[0]);
            assert(out@ =~= seq!['['] + spec_quoted_list(types@.take(i + 1int)));
        }
        i = i + 1;
    }
    push_char(&mut out, ']');
    proof {
        assert(types@.take(types@.len() as int) =~= types@);
        assert(out@ =~= spec_debug_types(types@));
    }
    out
}


/// The age gate: an event older than the configured bound is skipped,
/// whatever its trigger kind.
pub proof fn lemma_age_gate(
    cfg: FrameSelectionConfig,
    counters: Seq<(String, u64)>,
    event: StorageTriggerEvent,
    now_ms: int,
)
    requires
        spec_too_old(event.timestamp.spec_epoch_millis(), now_ms, cfg.max_frame_age_secs as int),
    ensures
        !spec_store(cfg, counters, event, now_ms),
{
}

/// The counter state of one device after `m` sample observations,
/// starting from no counter.
pub open spec fn spec_run_state(m: nat) -> Option<u64>
    decreases m,
{
    if m == 0 {
        None
    } else {
        Some(spec_next_counter(spec_run_state((m - 1) as nat)))
    }
}

/// How many of the first `m` sample observations of one device store.
pub open spec fn spec_run_stores(m: nat, rate: u64) -> int
    decreases m,
{
    if m == 0 {
        0
    } else {
        spec_run_stores((m - 1) as nat, rate) + if spec_sample_decision(
            spec_run_state((m - 1) as nat),
            rate,
        ) {
            1int
        } else {
            0int
        }
    }
}

proof fn lemma_run_state(m: nat)
    requires
        m <= u64::MAX,
    ensures
        m == 0 ==> spec_run_state(m) is None,
        m >= 1 ==> spec_run_state(m) == Some(m as u64),
    decreases m,
{
    if m >= 1 {
        lemma_run_state((m - 1) as nat);
    }
}

/// Sample cadence: over `m` successive sample observations of one device
/// with rate `rate`, the number of stored frames is `1 + (m - 1) / rate` —
/// the first observation always stores, and one more stores at the head
/// of every later window of `rate` observations.
pub proof fn lemma_sample_cadence(m: nat, rate: u64)
    requires
        rate >= 1,
        1 <= m <= u64::MAX,
    ensures
        spec_run_stores(m, rate) == 1 + (m - 1) / (rate as int),
    decreases m,
{
    if m == 1 {
        lemma_run_state(0);
        vstd::arithmetic::div_mod::lemma_div_basics(rate as int);
        assert(spec_run_state(0) is None);
        assert(spec_sample_decision(spec_run_state(0), rate));
        assert(spec_run_stores(0, rate) == 0);
        assert(spec_run_stores(1, rate) == 1);
        assert((m - 1) / (rate as int) == 0);
    } else {
        lemma_sample_cadence((m - 1) as nat, rate);
        lemma_run_state((m - 1) as nat);
        let k = (m - 1) as int;
        let r = rate as int;
        assert(spec_sample_decision(spec_run_state((m - 1) as nat), rate) == ((m - 1) as u64 % rate
            == 0));
        assert(k % r == (m - 1) as u64 % rate);
        vstd::arithmetic::div_mod::lemma_fundamental_div_mod(k, r);
        vstd::arithmetic::div_mod::lemma_mod_bound(k, r);
        assert(k == r * (k / r) + k % r);
        assert(r * (k / r) == (k / r) * r) by (nonlinear_arith);
        if k % r == 0 {
            assert(k - 1 == (k / r - 1) * r + (r - 1)) by {
                assert(k == r * (k / r) + k % r);
                assert((k / r - 1) * r == r * (k / r) - r) by (nonlinear_arith);
            }
            vstd::arithmetic::div_mod::lemma_fundamental_div_mod_converse(
                k - 1,
                r,
                k / r - 1,
                r - 1,
            );
            assert((k - 1) / r == k / r - 1);
        } else {
            assert(k - 1 == (k / r) * r + (k % r - 1)) by {
                assert(k == r * (k / r) + k % r);
                assert((k / r) * r == r * (k / r)) by (nonlinear_arith);
            }
            vstd::arithmetic::div_mod::lemma_fundamental_div_mod_converse(
                k - 1,
                r,
                k / r,
                k % r - 1,
            );
            assert((k - 1) / r == k / r);
        }
        assert(spec_run_stores(m, rate) == spec_run_stores((m - 1) as nat, rate) + if k % r == 0 {
            1int
        } else {
            0int
        });
        assert(spec_run_stores((m - 1) as nat, rate) == 1 + (k - 1) / r);
    }
}

/// Builder for creating a `FrameSelector` with custom settings.
pub struct FrameSelectorBuilder {
    /// The policy being assembled
    pub config: FrameSelectionConfig,
}

impl FrameSelectorBuilder {
    pub fn new() -> (r: Self)
        ensures
            r.config.store_detections == true,
            r.config.store_samples == true,
            r.config.sample_rate == 30,
            r.config.store_debug == true,
            r.config.min_confidence_milli == 500,
            r.config.detection_types@.len() == 0,
            r.config.max_frame_age_secs == 300,
    {
        FrameSelectorBuilder {
            config: FrameSelectionConfig {
                store_detections: true,
                store_samples: true,
                sample_rate: 30,
                store_debug: true,
                min_confidence_milli: 500,
                detection_types: Vec::new(),
                max_frame_age_secs: 300,
            },
        }
    }

    pub fn store_detections(self, enabled: bool) -> (r: Self)
        ensures
            r.config == (FrameSelectionConfig { store_detections: enabled, ..self.config }),
    {
        let mut config = self.config;
        config.store_detections = enabled;
        FrameSelectorBuilder { config }
    }

    pub fn store_samples(self, enabled: bool) -> (r: Self)
        ensures
            r.config == (FrameSelectionConfig { store_samples: enabled, ..self.config }),
    {
        let mut config = self.config;
        config.store_samples = enabled;
        FrameSelectorBuilder { config }
    }

    pub fn sample_rate(self, rate: u32) -> (r: Self)
        ensures
            r.config == (FrameSelectionConfig { sample_rate: rate, ..self.config }),
    {
        let mut config = self.config;
        config.sample_rate = rate;
        FrameSelectorBuilder { config }
    }

    /// Set the confidence threshold, in thousandths of its unit value.
    pub fn min_confidence(self, confidence_milli: u32) -> (r: Self)
        ensures
            r.config == (FrameSelectionConfig {
                min_confidence_milli: confidence_milli,
                ..self.config
            }),
    {
        let mut config = self.config;
        config.min_confidence_milli = confidence_milli;
        FrameSelectorBuilder { config }
    }

    pub fn detection_types(self, types: Vec<String>) -> (r: Self)
        ensures
            r.config == (FrameSelectionConfig { detection_types: types, ..self.config }),
    {
        let mut config = self.config;
        config.detection_types = types;
        FrameSelectorBuilder { config }
    }

    pub fn max_frame_age_secs(self, secs: u64) -> (r: Self)
        ensures
            r.config == (FrameSelectionConfig { max_frame_age_secs: secs, ..self.config }),
    {
        let mut config = self.config;
        config.max_frame_age_secs = secs;
        FrameSelectorBuilder { config }
    }

    pub fn build(self) -> (r: FrameSelector)
        ensures
            r.wf(),
            r.config == self.config,
            r.spec_counters().len() == 0,
    {
        FrameSelector::new(self.config)
    }
}

impl Default for FrameSelectorBuilder {
    fn default() -> (r: Self)
        ensures
            r.config.store_detections == true,
            r.config.store_samples == true,
            r.config.sample_rate == 30,
            r.config.store_debug == true,
            r.config.min_confidence_milli == 500,
            r.config.detection_types@.len() == 0,
            r.config.max_frame_age_secs == 300,
    {
        Self::new()
    }
}

} // verus!
