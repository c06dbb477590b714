//! Storage trigger events: the payload the storage service consumes from
//! the message bus.
//!
//! Fractions such as detection confidences are held in thousandths, and
//! timestamps as civil UTC fields, so that every field is a plain value.

use vstd::prelude::*;
use crate::datetime::UtcDateTime;

verus! {

/// Why a frame was placed on the bus for storage consideration.
#[derive(Debug, Clone, Copy, PartialEq, Eq, Structural)]
pub enum TriggerType {
    /// Frame contains detections
    Detection,
    /// Periodic sample frame
    Sample,
    /// Debug/troubleshooting frame
    Debug,
    /// Manual trigger from operator
    Manual,
    /// Alert condition triggered
    Alert,
}

impl TriggerType {
    /// The lower-case wire name of the trigger kind.
    pub open spec fn spec_name(self) -> Seq<char> {
        match self {
            TriggerType::Detection => "detection"@,
            TriggerType::Sample => "sample"@,
            TriggerType::Debug => "debug"@,
            TriggerType::Manual => "manual"@,
            TriggerType::Alert => "alert"@,
        }
    }

    pub fn name(&self) -> (r: &'static str)
        ensures
            r@ == self.spec_name(),
    {
        match self {
            TriggerType::Detection => "detection",
            TriggerType::Sample => "sample",
            TriggerType::Debug => "debug",
            TriggerType::Manual => "manual",
            TriggerType::Alert => "alert",
        }
    }

    /// The plural path segment the object-store key scheme uses.
    pub open spec fn spec_plural(self) -> Seq<char> {
        match self {
            TriggerType::Detection => "detections"@,
            TriggerType::Sample => "samples"@,
            TriggerType::Debug => "debug"@,
            TriggerType::Manual => "manual"@,
            TriggerType::Alert => "alerts"@,
        }
    }

    pub fn plural(&self) -> (r: &'static str)
        ensures
            r@ == self.spec_plural(),
    {
        match self {
            TriggerType::Detection => "detections",
            TriggerType::Sample => "samples",
            TriggerType::Debug => "debug",
            TriggerType::Manual => "manual",
            TriggerType::Alert => "alerts",
        }
    }
}

/// One detection inside a frame.  The confidence and the normalized
/// bounding box are held in thousandths of their unit-interval values.
#[derive(Debug, Clone)]
pub struct Detection {
    /// Detection type/class
    pub detection_type: String,
    /// Confidence in thousandths (0 ..= 1000)
    pub confidence_milli: u32,
    /// Bounding box `[x, y, width, height]`, each in thousandths (0 ..= 1000)
    pub bbox_milli: [u32; 4],
    /// Flat string attributes (`None` stands for a null attribute object)
    pub attributes: Option<Vec<(String, String)>>,
}

impl Detection {
    pub open spec fn wf(self) -> bool {
        &&& self.confidence_milli <= 1000
        &&& self.bbox_milli@.len() == 4
        &&& forall|i: int| 0 <= i < 4 ==> self.bbox_milli@[i] <= 1000
    }
}

/// An event asking the storage service to consider one encoded frame.
#[derive(Debug, Clone)]
pub struct StorageTriggerEvent {
    /// Unique event id in hyphenated UUID text form
    pub event_id: String,
    /// Device (camera glasses) identifier
    pub device_id: String,
    /// Frame timestamp, UTC
    pub timestamp: UtcDateTime,
    /// Frame sequence number within the stream
    pub frame_number: u64,
    /// Encoded frame bytes (jpeg, png, ...)
    pub frame_data: Vec<u8>,
    /// Frame width in pixels
    pub width: u32,
    /// Frame height in pixels
    pub height: u32,
    /// Frame format tag (jpeg, png, ...)
    pub format: String,
    /// Detections associated with the frame
    pub detections: Vec<Detection>,
    /// What placed the event on the bus
    pub trigger_type: TriggerType,
    /// Flat string metadata (`None` stands for a null metadata object)
    pub metadata: Option<Vec<(String, String)>>,
}

/// Whether `c` is a lower-case hexadecimal digit.
pub open spec fn spec_is_hex_lower(c: char) -> bool {
    ('0' <= c && c <= '9') || ('a' <= c && c <= 'f')
}

/// The hyphenated lower-case UUID text shape: 36 characters with hyphens
/// at positions 8, 13, 18 and 23 and hex digits everywhere else.
pub open spec fn spec_is_uuid_text(s: Seq<char>) -> bool {
    &&& s.len() == 36
    &&& forall|i: int|
        0 <= i < 36 ==> if i == 8 || i == 13 || i == 18 || i == 23 {
            #[trigger] s[i] == '-'
        } else {
            spec_is_hex_lower(s[i])
        }
}

impl StorageTriggerEvent {
    /// Field validity: a real timestamp, a UUID-shaped event id, and
    /// detections with unit-interval confidences and boxes.
    pub open spec fn wf(self) -> bool {
        &&& self.timestamp.wf()
        &&& spec_is_uuid_text(self.event_id@)
        &&& forall|i: int| 0 <= i < self.detections@.len() ==> (#[trigger] self.detections@[i]).wf()
    }
}

/// Look a key up in a flat string map; the first matching entry wins.
pub open spec fn spec_map_get(entries: Seq<(String, String)>, key: Seq<char>) -> Option<
    Seq<char>,
>
    decreases entries.len(),
{
    if entries.len() == 0 {
        None
    } else if entries[0].0@ == key {
        Some(entries[0].1@)
    } else {
        spec_map_get(entries.drop_first(), key)
    }
}

/// First value under `key` among the entries.
pub fn map_get<'a>(entries: &'a Vec<(String, String)>, key: &str) -> (r: Option<&'a String>)
    ensures
        match r {
            Some(v) => spec_map_get(entries@, key@) == Some(v@),
            None => spec_map_get(entries@, key@) is None,
        },
{
    let k: String = key.to_owned();
    let mut i: usize = 0;
    proof {
        assert(entries@.skip(0) =~= entries@);
    }
    while i < entries.len()
        invariant
            k@ == key@,
            i <= entries@.len(),
            spec_map_get(entries@, key@) == spec_map_get(entries@.skip(i as int), key@),
        decreases entries@.len() - i,
    {
        if entries[i].0 == k {
            proof {
                assert(entries@.skip(i as int)[0] == entries@[i as int]);
            }
            return Some(&entries[i].1);
        }
        proof {
            assert(entries@.skip(i as int).drop_first() =~= entries@.skip(i + 1int));
            assert(entries@.skip(i as int)[0] == entries@[i as int]);
        }
        i = i + 1;
    }
    proof {
        assert(entries@.skip(i as int).len() == 0);
    }
    None
}

} // verus!
