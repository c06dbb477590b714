//! The signed-URL API's request and response shapes, and the decisions
//! its handlers make: page assembly, the batch-size cap, and the
//! playback query bounds.
//!
//! HTTP serving, database reads and URL minting stay outside the
//! library; the handlers pass their inputs through these functions.

use vstd::prelude::*;
use crate::datetime::UtcDateTime;
use crate::metadata::{FrameMetadata, FrameQuery};

verus! {

/// Frame metadata in API responses.
#[derive(Debug, Clone)]
pub struct FrameMetadataResponse {
    pub id: String,
    pub device_id: String,
    pub timestamp: UtcDateTime,
    pub frame_number: i64,
    pub width: i32,
    pub height: i32,
    pub format: String,
    pub trigger_type: String,
    pub detection_count: i32,
    pub detection_types: Option<String>,
    /// Highest detection confidence, in thousandths
    pub max_confidence_milli: Option<u32>,
}

impl From<FrameMetadata> for FrameMetadataResponse {
    fn from(f: FrameMetadata) -> (r: Self) {
        FrameMetadataResponse {
            id: f.id,
            device_id: f.device_id,
            timestamp: f.timestamp,
            frame_number: f.frame_number,
            width: f.width,
            height: f.height,
            format: f.format,
            trigger_type: f.trigger_type,
            detection_count: f.detection_count,
            detection_types: f.detection_types,
            max_confidence_milli: f.max_confidence_milli,
        }
    }
}

impl vstd::std_specs::convert::FromSpecImpl<FrameMetadata> for FrameMetadataResponse {
    open spec fn obeys_from_spec() -> bool {
        true
    }

    open spec fn from_spec(f: FrameMetadata) -> Self {
        FrameMetadataResponse {
            id: f.id,
            device_id: f.device_id,
            timestamp: f.timestamp,
            frame_number: f.frame_number,
            width: f.width,
            height: f.height,
            format: f.format,
            trigger_type: f.trigger_type,
            detection_count: f.detection_count,
            detection_types: f.detection_types,
            max_confidence_milli: f.max_confidence_milli,
        }
    }
}

/// Query parameters of the frame list endpoint.
#[derive(Debug, Clone)]
pub struct FrameListQuery {
    /// Filter by device ID
    pub device_id: Option<String>,
    /// Start time
    pub start_time: Option<UtcDateTime>,
    /// End time
    pub end_time: Option<UtcDateTime>,
    /// Filter by trigger kind
    pub trigger_type: Option<String>,
    /// Filter by detection type
    pub detection_type: Option<String>,
    /// Minimum confidence, in thousandths
    pub min_confidence_milli: Option<u32>,
    /// Maximum results
    pub limit: i64,
    /// Offset for pagination
    pub offset: i64,
    /// Include signed URLs in the response
    pub include_urls: bool,
}

pub fn default_limit() -> (r: i64)
    ensures
        r == 50,
{
    50
}

/// Frame list response.
#[derive(Debug, Clone)]
pub struct FrameListResponse {
    pub frames: Vec<FrameWithUrl>,
    pub total_count: i64,
    pub has_more: bool,
}

/// One frame of a page, with its signed URL when requested.
#[derive(Debug, Clone)]
pub struct FrameWithUrl {
    pub frame: FrameMetadataResponse,
    pub url: Option<String>,
    pub url_expires_at: Option<UtcDateTime>,
}

/// Body of a batch signed-URL request.
#[derive(Debug, Clone)]
pub struct BatchPresignedUrlRequest {
    /// Frame IDs to mint URLs for (UUID text)
    pub frame_ids: Vec<String>,
}

/// Batch signed-URL response.
#[derive(Debug, Clone)]
pub struct BatchPresignedUrlResponse {
    pub urls: Vec<PresignedUrlResult>,
}

/// Outcome for one requested frame id of a batch.
#[derive(Debug, Clone)]
pub struct PresignedUrlResult {
    pub frame_id: String,
    pub url: Option<String>,
    pub expires_at: Option<UtcDateTime>,
    pub error: Option<String>,
}

/// Signed URL response for one frame.
#[derive(Debug, Clone)]
pub struct PresignedUrlResponse {
    /// The signed URL for frame access
    pub url: String,
    /// URL expiration time
    pub expires_at: UtcDateTime,
    /// Frame metadata
    pub frame: FrameMetadataResponse,
}

/// Problem response body.
#[derive(Debug, Clone)]
pub struct ErrorResponse {
    pub error: String,
    pub code: String,
}

/// Query parameters of the playback endpoint.
#[derive(Debug, Clone)]
pub struct PlaybackQuery {
    pub start_time: Option<UtcDateTime>,
    pub end_time: Option<UtcDateTime>,
    pub limit: Option<i64>,
}

/// Playback response.
#[derive(Debug, Clone)]
pub struct PlaybackResponse {
    pub device_id: String,
    pub frames: Vec<PlaybackFrame>,
}

/// One frame of a playback sequence.
#[derive(Debug, Clone)]
pub struct PlaybackFrame {
    pub frame_id: String,
    pub timestamp: UtcDateTime,
    pub frame_number: i64,
    pub url: String,
    pub expires_at: UtcDateTime,
    pub detection_count: i32,
}

/// The store query of a frame list request: the same filters, one row
/// more than the page asks for (to learn whether more rows follow),
/// newest first.
pub fn frame_query_from_params(params: &FrameListQuery) -> (q: FrameQuery)
    requires
        params.limit <= i64::MAX - 1,
    ensures
        q.device_id == params.device_id,
        q.start_time == params.start_time,
        q.end_time == params.end_time,
        q.trigger_type == params.trigger_type,
        q.detection_type == params.detection_type,
        q.min_confidence_milli == params.min_confidence_milli,
        q.limit == Some((params.limit + 1) as i64),
        q.offset == Some(params.offset),
        q.ascending == false,
{
    FrameQuery {
        device_id: params.device_id.clone(),
        start_time: params.start_time,
        end_time: params.end_time,
        trigger_type: params.trigger_type.clone(),
        detection_type: params.detection_type.clone(),
        min_confidence_milli: params.min_confidence_milli,
        limit: Some(params.limit + 1),
        offset: Some(params.offset),
        ascending: false,
    }
}

/// Assemble a page from rows fetched with one extra: the page holds at
/// most `limit` rows, and `has_more` reports that the extra row arrived.
pub fn paginate(frames: Vec<FrameMetadata>, limit: i64) -> (r: (Vec<FrameMetadata>, bool))
    requires
        limit >= 0,
    ensures
        r.1 == (frames@.len() > limit),
        r.1 ==> r.0@ == frames@.drop_last(),
        !r.1 ==> r.0@ == frames@,
{
    let mut frames = frames;
    let has_more = frames.len() as u64 > limit as u64;
    if has_more {
        frames.pop();
    }
    (frames, has_more)
}

/// Has-more is exact: with true total `total`, page offset `offset` and
/// page size `limit`, the store returns `min(limit + 1, total - offset)`
/// rows for the over-fetching query, and the extra row arrives exactly
/// when rows remain past the page.
pub proof fn lemma_has_more(total: int, offset: int, limit: int)
    requires
        0 <= total,
        0 <= offset,
        0 <= limit,
    ensures
        ({
            let fetched = if total - offset <= 0 {
                0
            } else if total - offset < limit + 1 {
                total - offset
            } else {
                limit + 1
            };
            (fetched > limit) <==> (total > offset + limit)
        }),
{
}

/// The largest number of ids one batch signed-URL request may carry.
pub fn max_batch_size() -> (r: usize)
    ensures
        r == 100,
{
    100
}

/// Check the batch size cap: more than one hundred ids is refused with
/// status 400 and code `BATCH_TOO_LARGE`.
pub fn validate_batch_request(n_ids: usize) -> (r: Option<(u16, ErrorResponse)>)
    ensures
        match r {
            Some(e) => n_ids > 100 && e.0 == 400 && e.1.error@ == "Maximum 100 frames per batch"@
                && e.1.code@ == "BATCH_TOO_LARGE"@,
            None => n_ids <= 100,
        },
{
    if n_ids > 100 {
        Some(
            (
                400,
                ErrorResponse {
                    error: String::from_str("Maximum 100 frames per batch"),
                    code: String::from_str("BATCH_TOO_LARGE"),
                },
            ),
        )
    } else {
        None
    }
}

/// The store query of a playback request: the device's frames in
/// chronological order, at most the asked-for count, hard-capped at 500,
/// one hundred when unspecified.
pub fn playback_query(device_id: String, params: &PlaybackQuery) -> (q: FrameQuery)
    ensures
        q.device_id == Some(device_id),
        q.start_time == params.start_time,
        q.end_time == params.end_time,
        q.trigger_type is None,
        q.detection_type is None,
        q.min_confidence_milli is None,
        q.limit == Some(
            {
                let asked = match params.limit {
                    Some(l) => l,
                    None => 100,
                };
                if asked < 500 {
                    asked
                } else {
                    500
                }
            },
        ),
        q.offset is None,
        q.ascending == true,
{
    let asked: i64 = match params.limit {
        Some(l) => l,
        None => 100,
    };
    let capped: i64 = if asked < 500 {
        asked
    } else {
        500
    };
    FrameQuery {
        device_id: Some(device_id),
        start_time: params.start_time,
        end_time: params.end_time,
        trigger_type: None,
        detection_type: None,
        min_confidence_milli: None,
        limit: Some(capped),
        offset: None,
        ascending: true,
    }
}

} // verus!
