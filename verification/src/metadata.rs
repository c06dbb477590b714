//! The metadata index of stored frames: the records the database holds,
//! the derived columns of a new frame row, and the text of the filtered
//! frame query.
//!
//! Connections, transactions and statement execution stay outside the
//! library; they receive rows and SQL built and specified here.

use vstd::prelude::*;
use crate::datetime::UtcDateTime;
use crate::events::{Detection, StorageTriggerEvent};
use crate::strutil::{append_u64, push_char, spec_u64_dec};

verus! {

/// Stored frame metadata, one row of the frame index.
#[derive(Debug, Clone)]
pub struct FrameMetadata {
    /// Unique frame ID (UUID text)
    pub id: String,
    /// Original event ID (UUID text)
    pub event_id: String,
    /// Device ID
    pub device_id: String,
    /// Frame timestamp
    pub timestamp: UtcDateTime,
    /// Frame sequence number
    pub frame_number: i64,
    /// Object-store key
    pub s3_key: String,
    /// Frame width
    pub width: i32,
    /// Frame height
    pub height: i32,
    /// Frame format
    pub format: String,
    /// Trigger kind that caused storage
    pub trigger_type: String,
    /// Reason for storage
    pub storage_reason: String,
    /// Number of detections in the frame
    pub detection_count: i32,
    /// Detection types present, comma-separated
    pub detection_types: Option<String>,
    /// Highest detection confidence, in thousandths
    pub max_confidence_milli: Option<u32>,
    /// Frame size in bytes
    pub size_bytes: i64,
    /// Flat string metadata carried over from the event
    pub metadata: Option<Vec<(String, String)>>,
    /// When the row was created
    pub created_at: UtcDateTime,
}

/// Query parameters for frame search.
#[derive(Debug, Clone)]
pub struct FrameQuery {
    /// Filter by device ID
    pub device_id: Option<String>,
    /// Start time (inclusive)
    pub start_time: Option<UtcDateTime>,
    /// End time (exclusive)
    pub end_time: Option<UtcDateTime>,
    /// Filter by trigger kind
    pub trigger_type: Option<String>,
    /// Filter by detection type (substring of the joined types column)
    pub detection_type: Option<String>,
    /// Minimum confidence threshold, in thousandths
    pub min_confidence_milli: Option<u32>,
    /// Maximum number of results
    pub limit: Option<i64>,
    /// Offset for pagination
    pub offset: Option<i64>,
    /// Order by timestamp ascending (else descending)
    pub ascending: bool,
}

impl Default for FrameQuery {
    /// The empty filter: no conditions, no page bounds, newest first.
    fn default() -> (r: Self)
        ensures
            r.device_id is None,
            r.start_time is None,
            r.end_time is None,
            r.trigger_type is None,
            r.detection_type is None,
            r.min_confidence_milli is None,
            r.limit is None,
            r.offset is None,
            r.ascending == false,
    {
        FrameQuery {
            device_id: None,
            start_time: None,
            end_time: None,
            trigger_type: None,
            detection_type: None,
            min_confidence_milli: None,
            limit: None,
            offset: None,
            ascending: false,
        }
    }
}

/// One detection row of the detection index.
#[derive(Debug, Clone)]
pub struct DetectionRecord {
    /// Unique detection ID (UUID text)
    pub id: String,
    /// Parent frame ID (UUID text)
    pub frame_id: String,
    /// Detection type/class
    pub detection_type: String,
    /// Confidence, in thousandths
    pub confidence_milli: u32,
    /// Bounding box `[x, y, w, h]`, in thousandths
    pub bbox_milli: [u32; 4],
    /// Flat string attributes
    pub attributes: Option<Vec<(String, String)>>,
    /// When the row was created
    pub created_at: UtcDateTime,
}

/// Totals over the frame index.
#[derive(Debug, Clone, Copy, PartialEq, Eq, Structural)]
pub struct StorageStats {
    pub total_frames: i64,
    pub total_bytes: i64,
    pub total_detections: i64,
    pub device_count: i64,
}

/// The comma-joined detection types of the event's detections, in order.
pub open spec fn spec_joined_types(dets: Seq<Detection>) -> Seq<char>
    decreases dets.len(),
{
    if dets.len() == 0 {
        Seq::empty()
    } else if dets.len() == 1 {
        dets[0].detection_type@
    } else {
        spec_joined_types(dets.drop_last()) + seq![','] + dets.last().detection_type@
    }
}

/// The greatest confidence among the detections, in thousandths.
pub open spec fn spec_max_conf(dets: Seq<Detection>) -> Option<u32>
    decreases dets.len(),
{
    if dets.len() == 0 {
        None
    } else {
        match spec_max_conf(dets.drop_last()) {
            None => Some(dets.last().confidence_milli),
            Some(m) => if dets.last().confidence_milli > m {
                Some(dets.last().confidence_milli)
            } else {
                Some(m)
            },
        }
    }
}

/// Join the detection types of the event with commas, or `None` when
/// the event has no detections.
fn joined_types(dets: &Vec<Detection>) -> (r: Option<String>)
    ensures
        match r {
            Some(s) => dets@.len() > 0 && s@ == spec_joined_types(dets@),
            None => dets@.len() == 0,
        },
{
    if dets.len() == 0 {
        return None;
    }
    let mut out = String::new();
    let mut i: usize = 0;
    proof {
        assert(dets@.take(0) =~= Seq::<Detection>::empty());
    }
    while i < dets.len()
        invariant
            i <= dets@.len(),
            out@ == spec_joined_types(dets@.take(i as int)),
        decreases dets@.len() - i,
    {
        if i > 0 {
            push_char(&mut out, ',');
        }
        out.append(dets[i].detection_type.as_str());
        proof {
            assert(dets@.take(i + 1int).drop_last() =~= dets@.take(i as int));
            assert(dets@.take(i + 1int).last() == dets@[i as int]);
            assert(dets@.take(i + 1int)[0] == dets@[0]);
            assert(out@ =~= spec_joined_types(dets@.take(i + 1int)));
        }
        i = i + 1;
    }
    proof {
        assert(dets@.take(dets@.len() as int) =~= dets@);
    }
    Some(out)
}

/// Greatest confidence among the detections.
fn max_confidence(dets: &Vec<Detection>) -> (r: Option<u32>)
    ensures
        r == spec_max_conf(dets@),
{
    let mut best: Option<u32> = None;
    let mut i: usize = 0;
    proof {
        assert(dets@.take(0) =~= Seq::<Detection>::empty());
    }
    while i < dets.len()
        invariant
            i <= dets@.len(),
            best == spec_max_conf(dets@.take(i as int)),
        decreases dets@.len() - i,
    {
        let c = dets[i].confidence_milli;
        proof {
            assert(dets@.take(i + 1int).drop_last() =~= dets@.take(i as int));
            assert(dets@.take(i + 1int).last() == dets@[i as int]);
        }
        best = match best {
            None => Some(c),
            Some(m) => if c > m {
                Some(c)
            } else {
                Some(m)
            },
        };
        i = i + 1;
    }
    proof {
        assert(dets@.take(dets@.len() as int) =~= dets@);
    }
    best
}

/// The frame row indexed for a stored event: the derived columns hold the
/// detection count, the comma-joined types, the greatest confidence and
/// the payload size, and the key and reason are carried as given.
pub fn build_frame_record(
    event: &StorageTriggerEvent,
    s3_key: String,
    storage_reason: String,
    frame_id: String,
    now: UtcDateTime,
) -> (r: FrameMetadata)
    requires
        event.frame_data@.len() <= i64::MAX,
        event.detections@.len() <= i32::MAX,
    ensures
        r.id@ == frame_id@,
        r.event_id@ == event.event_id@,
        r.device_id@ == event.device_id@,
        r.timestamp == event.timestamp,
        r.frame_number == event.frame_number as i64,
        r.s3_key@ == s3_key@,
        r.width == event.width as i32,
        r.height == event.height as i32,
        r.format@ == event.format@,
        r.trigger_type@ == event.trigger_type.spec_name(),
        r.storage_reason@ == storage_reason@,
        r.detection_count == event.detections@.len(),
        match r.detection_types {
            Some(t) => event.detections@.len() > 0 && t@ == spec_joined_types(event.detections@),
            None => event.detections@.len() == 0,
        },
        r.max_confidence_milli == spec_max_conf(event.detections@),
        r.size_bytes == event.frame_data@.len(),
        r.created_at == now,
{
    FrameMetadata {
        id: frame_id,
        event_id: event.event_id.clone(),
        device_id: event.device_id.clone(),
        timestamp: event.timestamp,
        frame_number: #[verifier::truncate] (event.frame_number as i64),
        s3_key,
        width: #[verifier::truncate] (event.width as i32),
        height: #[verifier::truncate] (event.height as i32),
        format: event.format.clone(),
        trigger_type: String::from_str(event.trigger_type.name()),
        storage_reason,
        detection_count: event.detections.len() as i32,
        detection_types: joined_types(&event.detections),
        max_confidence_milli: max_confidence(&event.detections),
        size_bytes: event.frame_data.len() as i64,
        metadata: event.metadata.clone(),
        created_at: now,
    }
}

/// The detection rows indexed with a frame: one per detection, in order,
/// each carrying its given row id and the parent frame id.
pub fn build_detection_records(
    event: &StorageTriggerEvent,
    frame_id: &str,
    ids: Vec<String>,
    now: UtcDateTime,
) -> (r: Vec<DetectionRecord>)
    requires
        ids@.len() == event.detections@.len(),
    ensures
        r@.len() == event.detections@.len(),
        forall|i: int|
            0 <= i < r@.len() ==> {
                let rec = #[trigger] r@[i];
                &&& rec.id@ == ids@[i]@
                &&& rec.frame_id@ == frame_id@
                &&& rec.detection_type@ == event.detections@[i].detection_type@
                &&& rec.confidence_milli == event.detections@[i].confidence_milli
                &&& rec.bbox_milli@ == event.detections@[i].bbox_milli@
                &&& rec.created_at == now
            },
{
    let mut out: Vec<DetectionRecord> = Vec::new();
    let fid: String = frame_id.to_owned();
    let mut i: usize = 0;
    let mut ids = ids;
    while i < event.detections.len()
        invariant
            i <= event.detections@.len(),
            ids@.len() == event.detections@.len(),
            fid@ == frame_id@,
            out@.len() == i,
            forall|j: int|
                0 <= j < i ==> {
                    let rec = #[trigger] out@[j];
                    &&& rec.id@ == ids@[j]@
                    &&& rec.frame_id@ == frame_id@
                    &&& rec.detection_type@ == event.detections@[j].detection_type@
                    &&& rec.confidence_milli == event.detections@[j].confidence_milli
                    &&& rec.bbox_milli@ == event.detections@[j].bbox_milli@
                    &&& rec.created_at == now
                },
        decreases event.detections@.len() - i,
    {
        let d = &event.detections[i];
        out.push(
            DetectionRecord {
                id: ids[i].clone(),
                frame_id: fid.clone(),
                detection_type: d.detection_type.clone(),
                confidence_milli: d.confidence_milli,
                bbox_milli: d.bbox_milli,
                attributes: d.attributes.clone(),
                created_at: now,
            },
        );
        i = i + 1;
    }
    out
}

/// The column list every frame query selects.
pub open spec fn spec_frame_columns() -> Seq<char> {
    "SELECT id, event_id, device_id, timestamp, frame_number, s3_key, width, height, format, trigger_type, storage_reason, detection_count, detection_types, max_confidence, size_bytes, metadata, created_at FROM frames WHERE 1=1"@
}

/// The SQL of a filtered frame query: one numbered condition per present
/// filter, in the fixed order device, start, end, trigger, detection
/// type, confidence — then the timestamp ordering and the numbered limit
/// and offset.  Values are bound in that same order.
pub open spec fn spec_frames_query_sql(q: FrameQuery) -> Seq<char> {
    let s0 = spec_frame_columns();
    let n0: int = 0;
    let s1 = if q.device_id is Some {
        s0 + " AND device_id = $"@ + spec_u64_dec(n0 + 1)
    } else {
        s0
    };
    let n1: int = if q.device_id is Some {
        n0 + 1
    } else {
        n0
    };
    let s2 = if q.start_time is Some {
        s1 + " AND timestamp >= $"@ + spec_u64_dec(n1 + 1)
    } else {
        s1
    };
    let n2: int = if q.start_time is Some {
        n1 + 1
    } else {
        n1
    };
    let s3 = if q.end_time is Some {
        s2 + " AND timestamp < $"@ + spec_u64_dec(n2 + 1)
    } else {
        s2
    };
    let n3: int = if q.end_time is Some {
        n2 + 1
    } else {
        n2
    };
    let s4 = if q.trigger_type is Some {
        s3 + " AND trigger_type = $"@ + spec_u64_dec(n3 + 1)
    } else {
        s3
    };
    let n4: int = if q.trigger_type is Some {
        n3 + 1
    } else {
        n3
    };
    let s5 = if q.detection_type is Some {
        s4 + " AND detection_types LIKE $"@ + spec_u64_dec(n4 + 1)
    } else {
        s4
    };
    let n5: int = if q.detection_type is Some {
        n4 + 1
    } else {
        n4
    };
    let s6 = if q.min_confidence_milli is Some {
        s5 + " AND max_confidence >= $"@ + spec_u64_dec(n5 + 1)
    } else {
        s5
    };
    let n6: int = if q.min_confidence_milli is Some {
        n5 + 1
    } else {
        n5
    };
    let s7 = if q.ascending {
        s6 + " ORDER BY timestamp ASC"@
    } else {
        s6 + " ORDER BY timestamp DESC"@
    };
    let s8 = if q.limit is Some {
        s7 + " LIMIT $"@ + spec_u64_dec(n6 + 1)
    } else {
        s7
    };
    let n7: int = if q.limit is Some {
        n6 + 1
    } else {
        n6
    };
    let s9 = if q.offset is Some {
        s8 + " OFFSET $"@ + spec_u64_dec(n7 + 1)
    } else {
        s8
    };
    s9
}

/// Build the SQL text of a filtered frame query.
pub fn query_frames_sql(q: &FrameQuery) -> (r: String)
    ensures
        r@ == spec_frames_query_sql(*q),
{
    let mut sql = String::from_str(
        "SELECT id, event_id, device_id, timestamp, frame_number, s3_key, width, height, format, trigger_type, storage_reason, detection_count, detection_types, max_confidence, size_bytes, metadata, created_at FROM frames WHERE 1=1",
    );
    let mut param_count: u64 = 0;
    if q.device_id.is_some() {
        param_count = param_count + 1;
        sql.append(" AND device_id = $");
        append_u64(&mut sql, param_count);
    }
    if q.start_time.is_some() {
        param_count = param_count + 1;
        sql.append(" AND timestamp >= $");
        append_u64(&mut sql, param_count);
    }
    if q.end_time.is_some() {
        param_count = param_count + 1;
        sql.append(" AND timestamp < $");
        append_u64(&mut sql, param_count);
    }
    if q.trigger_type.is_some() {
        param_count = param_count + 1;
        sql.append(" AND trigger_type = $");
        append_u64(&mut sql, param_count);
    }
    if q.detection_type.is_some() {
        param_count = param_count + 1;
        sql.append(" AND detection_types LIKE $");
        append_u64(&mut sql, param_count);
    }
    if q.min_confidence_milli.is_some() {
        param_count = param_count + 1;
        sql.append(" AND max_confidence >= $");
        append_u64(&mut sql, param_count);
    }
    if q.ascending {
        sql.append(" ORDER BY timestamp ASC");
    } else {
        sql.append(" ORDER BY timestamp DESC");
    }
    if q.limit.is_some() {
        param_count = param_count + 1;
        sql.append(" LIMIT $");
        append_u64(&mut sql, param_count);
    }
    if q.offset.is_some() {
        param_count = param_count + 1;
        sql.append(" OFFSET $");
        append_u64(&mut sql, param_count);
    }
    proof {
        assert(sql@ =~= spec_frames_query_sql(*q));
    }
    sql
}

/// The pattern bound for the detection-type filter: the type wrapped in
/// SQL wildcards, matching it as a substring of the joined types column.
pub fn detection_type_pattern(detection_type: &str) -> (r: String)
    ensures
        r@ == seq!['%'] + detection_type@ + seq!['%'],
{
    let mut out = String::new();
    push_char(&mut out, '%');
    out.append(detection_type);
    push_char(&mut out, '%');
    proof {
        assert(out@ =~= seq!['%'] + detection_type@ + seq!['%']);
    }
    out
}

} // verus!
