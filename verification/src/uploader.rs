//! Object-store uploads: partitioned key generation, content types,
//! multipart planning, and the upload-then-index ordering.
//!
//! The store calls themselves (put, multipart, head, delete, list) are
//! plain I/O and stay outside the library; everything they are given —
//! keys, content types, object metadata, part boundaries — is computed
//! and specified here.

use vstd::prelude::*;
use crate::events::{StorageTriggerEvent, spec_is_uuid_text};
use crate::strutil::{
    append_u64, push_char, spec_lower, spec_sanitize, spec_u64_dec, to_ascii_lowercase,
    sanitize_append,
};

verus! {

/// Replace every character outside `[A-Za-z0-9_-]` with an underscore, so
/// a device identifier is safe as one path segment of an object key.
pub fn sanitize_path_component(component: &str) -> (r: String)
    ensures
        r@ == spec_sanitize(component@),
{
    let mut out = String::new();
    sanitize_append(&mut out, component);
    proof {
        assert(out@ =~= spec_sanitize(component@));
    }
    out
}

/// The content type served for a frame format tag.
pub open spec fn spec_content_type(format: Seq<char>) -> Seq<char> {
    let f = spec_lower(format);
    if f == "jpeg"@ || f == "jpg"@ {
        "image/jpeg"@
    } else if f == "png"@ {
        "image/png"@
    } else if f == "webp"@ {
        "image/webp"@
    } else if f == "bmp"@ {
        "image/bmp"@
    } else if f == "gif"@ {
        "image/gif"@
    } else {
        "application/octet-stream"@
    }
}

/// Content type for a frame format tag, case-insensitively.
pub fn get_content_type(format: &str) -> (r: String)
    ensures
        r@ == spec_content_type(format@),
{
    let f = to_ascii_lowercase(format);
    if crate::strutil::str_eq(f.as_str(), "jpeg") || crate::strutil::str_eq(f.as_str(), "jpg") {
        String::from_str("image/jpeg")
    } else if crate::strutil::str_eq(f.as_str(), "png") {
        String::from_str("image/png")
    } else if crate::strutil::str_eq(f.as_str(), "webp") {
        String::from_str("image/webp")
    } else if crate::strutil::str_eq(f.as_str(), "bmp") {
        String::from_str("image/bmp")
    } else if crate::strutil::str_eq(f.as_str(), "gif") {
        String::from_str("image/gif")
    } else {
        String::from_str("application/octet-stream")
    }
}

/// The partitioned object key of an event:
/// `frames/{date}/{device}/{kind}/{time}_{event_id}.{format}`.
pub open spec fn spec_s3_key(event: StorageTriggerEvent) -> Seq<char> {
    "frames/"@ + event.timestamp.spec_date_str() + seq!['/'] + spec_sanitize(event.device_id@)
        + seq!['/'] + event.trigger_type.spec_plural() + seq!['/'] + event.timestamp.spec_time_key()
        + seq!['_'] + event.event_id@ + seq!['.'] + spec_lower(event.format@)
}

/// Generate the object key of an event, partitioned by date, device and
/// trigger kind, with a sortable time prefix in the file name.
pub fn generate_s3_key(event: &StorageTriggerEvent) -> (r: String)
    requires
        event.timestamp.wf(),
    ensures
        r@ == spec_s3_key(*event),
{
    let mut out = String::from_str("frames/");
    let date = event.timestamp.format_date();
    out.append(date.as_str());
    push_char(&mut out, '/');
    sanitize_append(&mut out, event.device_id.as_str());
    push_char(&mut out, '/');
    out.append(event.trigger_type.plural());
    push_char(&mut out, '/');
    let tk = event.timestamp.format_time_key();
    out.append(tk.as_str());
    push_char(&mut out, '_');
    out.append(event.event_id.as_str());
    push_char(&mut out, '.');
    let lf = to_ascii_lowercase(event.format.as_str());
    out.append(lf.as_str());
    proof {
        assert(out@ =~= spec_s3_key(*event));
    }
    out
}

/// `YYYY-MM-DD`: four digits, a hyphen, two digits, a hyphen, two digits.
pub open spec fn spec_date_shape(s: Seq<char>) -> bool {
    &&& s.len() == 10
    &&& crate::strutil::spec_all_digits(s.subrange(0, 4))
    &&& s[4] == '-'
    &&& crate::strutil::spec_all_digits(s.subrange(5, 7))
    &&& s[7] == '-'
    &&& crate::strutil::spec_all_digits(s.subrange(8, 10))
}

/// A character allowed in a sanitized path segment.
pub open spec fn spec_segment_char(c: char) -> bool {
    ('a' <= c && c <= 'z') || ('A' <= c && c <= 'Z') || ('0' <= c && c <= '9') || c == '-' || c
        == '_'
}

/// One of the five plural trigger-kind path segments.
pub open spec fn spec_plural_word(s: Seq<char>) -> bool {
    s == "detections"@ || s == "samples"@ || s == "debug"@ || s == "manual"@ || s == "alerts"@
}

/// An ASCII letter.
pub open spec fn spec_ascii_alpha(c: char) -> bool {
    ('a' <= c && c <= 'z') || ('A' <= c && c <= 'Z')
}

/// The shape of every generated object key, segment by segment.  Read
/// with the definition of `spec_s3_key`, this is the key pattern
/// `frames/<date>/<segment>/<kind>/<9 digits>_<uuid>.<lower-case word>`:
/// a ten-character hyphenated date, a non-empty segment of word
/// characters and hyphens, one of the five plural kind words, nine
/// digits, an underscore, a 36-character hyphenated lower-case UUID, a
/// dot and a non-empty lower-case alphabetic extension.
pub proof fn lemma_key_shape(event: StorageTriggerEvent)
    requires
        event.wf(),
        event.device_id@.len() > 0,
        event.format@.len() > 0,
        forall|i: int| 0 <= i < event.format@.len() ==> spec_ascii_alpha(#[trigger] event.format@[i]),
    ensures
        spec_s3_key(event) == "frames/"@ + event.timestamp.spec_date_str() + seq!['/']
            + spec_sanitize(event.device_id@) + seq!['/'] + event.trigger_type.spec_plural()
            + seq!['/'] + event.timestamp.spec_time_key() + seq!['_'] + event.event_id@ + seq!['.']
            + spec_lower(event.format@),
        spec_date_shape(event.timestamp.spec_date_str()),
        spec_sanitize(event.device_id@).len() == event.device_id@.len() > 0,
        forall|i: int|
            0 <= i < spec_sanitize(event.device_id@).len() ==> spec_segment_char(
                #[trigger] spec_sanitize(event.device_id@)[i],
            ),
        spec_plural_word(event.trigger_type.spec_plural()),
        event.timestamp.spec_time_key().len() == 9,
        crate::strutil::spec_all_digits(event.timestamp.spec_time_key()),
        spec_is_uuid_text(event.event_id@),
        spec_lower(event.format@).len() == event.format@.len() > 0,
        forall|i: int|
            0 <= i < spec_lower(event.format@).len() ==> 'a'
                <= #[trigger] spec_lower(event.format@)[i] <= 'z',
{
    let d = event.timestamp;
    crate::strutil::lemma_pad_val(d.year as int, 4);
    crate::strutil::lemma_pad_val(d.month as int, 2);
    crate::strutil::lemma_pad_val(d.day as int, 2);
    crate::strutil::lemma_pad_val(d.hour as int, 2);
    crate::strutil::lemma_pad_val(d.minute as int, 2);
    crate::strutil::lemma_pad_val(d.second as int, 2);
    crate::strutil::lemma_pad_val(d.millisecond as int, 3);
    let ds = d.spec_date_str();
    assert(ds.subrange(0, 4) =~= crate::strutil::spec_u64_pad(d.year as int, 4));
    assert(ds.subrange(5, 7) =~= crate::strutil::spec_u64_pad(d.month as int, 2));
    assert(ds.subrange(8, 10) =~= crate::strutil::spec_u64_pad(d.day as int, 2));
    let tk = d.spec_time_key();
    assert forall|i: int| 0 <= i < tk.len() implies crate::strutil::spec_digit_val(
        #[trigger] tk[i],
    ) >= 0 by {
        let h = crate::strutil::spec_u64_pad(d.hour as int, 2);
        let mi = crate::strutil::spec_u64_pad(d.minute as int, 2);
        let se = crate::strutil::spec_u64_pad(d.second as int, 2);
        let ms = crate::strutil::spec_u64_pad(d.millisecond as int, 3);
        if i < 2 {
            assert(tk[i] == h[i]);
        } else if i < 4 {
            assert(tk[i] == mi[i - 2]);
        } else if i < 6 {
            assert(tk[i] == se[i - 4]);
        } else {
            assert(tk[i] == ms[i - 6]);
        }
    }
}
pub fn object_metadata(event: &StorageTriggerEvent) -> (r: Vec<(String, String)>)
    requires
        event.timestamp.wf(),
    ensures
        r@.len() == 6,
        r@[0].0@ == "device-id"@ && r@[0].1@ == event.device_id@,
        r@[1].0@ == "frame-number"@ && r@[1].1@ == spec_u64_dec(event.frame_number as int),
        r@[2].0@ == "trigger-type"@ && r@[2].1@ == event.trigger_type.spec_name(),
        r@[3].0@ == "width"@ && r@[3].1@ == spec_u64_dec(event.width as int),
        r@[4].0@ == "height"@ && r@[4].1@ == spec_u64_dec(event.height as int),
        r@[5].0@ == "timestamp"@ && r@[5].1@ == event.timestamp.spec_rfc3339(),
{
    let mut out: Vec<(String, String)> = Vec::new();
    out.push((String::from_str("device-id"), event.device_id.clone()));
    let mut fnum = String::new();
    append_u64(&mut fnum, event.frame_number);
    out.push((String::from_str("frame-number"), fnum));
    out.push((String::from_str("trigger-type"), String::from_str(event.trigger_type.name())));
    let mut w = String::new();
    append_u64(&mut w, event.width as u64);
    out.push((String::from_str("width"), w));
    let mut h = String::new();
    append_u64(&mut h, event.height as u64);
    out.push((String::from_str("height"), h));
    out.push((String::from_str("timestamp"), event.timestamp.format_rfc3339()));
    out
}

/// Whether the payload takes the multipart path.
pub fn needs_multipart(len: usize, threshold: usize) -> (r: bool)
    ensures
        r == (len > threshold),
{
    len > threshold
}

/// Split `[0, total_len)` into successive parts of `part_size` bytes,
/// the last one possibly shorter; each element is `(offset, length)`.
pub fn plan_parts(total_len: usize, part_size: usize) -> (r: Vec<(usize, usize)>)
    requires
        part_size >= 1,
    ensures
        r@.len() == (total_len + part_size - 1) / (part_size as int),
        forall|i: int|
            0 <= i < r@.len() ==> (#[trigger] r@[i]).0 == i * part_size && 1 <= r@[i].1
                <= part_size,
        forall|i: int| 0 <= i < r@.len() - 1 ==> (#[trigger] r@[i]).1 == part_size,
        r@.len() > 0 ==> r@[r@.len() - 1].0 + r@[r@.len() - 1].1 == total_len,
        total_len == 0 ==> r@.len() == 0,
{
    let mut out: Vec<(usize, usize)> = Vec::new();
    let mut offset: usize = 0;
    while total_len - offset > part_size
        invariant
            part_size >= 1,
            offset <= total_len,
            offset == out@.len() * part_size,
            forall|i: int|
                0 <= i < out@.len() ==> (#[trigger] out@[i]).0 == i * part_size && out@[i].1
                    == part_size,
        decreases total_len - offset,
    {
        let ghost n = out@.len() as int;
        out.push((offset, part_size));
        proof {
            assert((n + 1) * part_size == n * part_size + part_size) by (nonlinear_arith);
        }
        offset = offset + part_size;
    }
    let ghost n = out@.len() as int;
    let ghost size = part_size as int;
    if total_len > offset {
        let last = total_len - offset;
        out.push((offset, last));
        proof {
            assert(total_len + size - 1 == (n + 1) * size + (last - 1)) by (nonlinear_arith)
                requires
                    size >= 1,
                    1 <= last <= size,
                    offset == n * size,
                    total_len == offset + last,
            ;
            vstd::arithmetic::div_mod::lemma_fundamental_div_mod_converse(
                total_len + size - 1,
                size,
                n + 1,
                last - 1,
            );
        }
    } else {
        proof {
            if total_len > 0 {
                assert(out@.len() > 0);
                assert(out@[n - 1].0 == (n - 1) * size);
                assert((n - 1) * size + size == n * size) by (nonlinear_arith);
                assert(out@[n - 1].0 + out@[n - 1].1 == total_len);
                assert(total_len + size - 1 == n * size + (size - 1)) by (nonlinear_arith)
                    requires
                        size >= 1,
                        offset == n * size,
                        total_len == offset,
                ;
                vstd::arithmetic::div_mod::lemma_fundamental_div_mod_converse(
                    total_len + size - 1,
                    size,
                    n,
                    size - 1,
                );
            } else {
                assert(n * size == 0);
                assert(n == 0) by (nonlinear_arith)
                    requires
                        n * size == 0,
                        size >= 1,
                        n >= 0,
                ;
                assert(size - 1 == 0 * size + (size - 1)) by (nonlinear_arith)
                    requires
                        size >= 1,
                ;
                vstd::arithmetic::div_mod::lemma_fundamental_div_mod_converse(
                    size - 1,
                    size,
                    0,
                    size - 1,
                );
            }
        }
    }
    out
}

/// Prefix for listing stored frames of a date, optionally narrowed to a
/// device and a trigger kind.
pub open spec fn spec_list_prefix(
    date: Seq<char>,
    device: Option<Seq<char>>,
    event_type: Option<Seq<char>>,
) -> Seq<char> {
    let base = "frames/"@ + date;
    match device {
        Some(d) => {
            let with_dev = base + seq!['/'] + spec_sanitize(d);
            match event_type {
                Some(t) => with_dev + seq!['/'] + t,
                None => with_dev,
            }
        },
        None => base,
    }
}

pub fn list_prefix(date: &str, device_id: Option<&str>, event_type: Option<&str>) -> (r: String)
    ensures
        r@ == spec_list_prefix(
            date@,
            match device_id {
                Some(d) => Some(d@),
                None => None,
            },
            match event_type {
                Some(t) => Some(t@),
                None => None,
            },
        ),
{
    let mut out = String::from_str("frames/");
    out.append(date);
    match device_id {
        Some(d) => {
            push_char(&mut out, '/');
            sanitize_append(&mut out, d);
            match event_type {
                Some(t) => {
                    push_char(&mut out, '/');
                    out.append(t);
                },
                None => {},
            }
        },
        None => {},
    }
    proof {
        assert(out@ =~= spec_list_prefix(
            date@,
            match device_id {
                Some(d) => Some(d@),
                None => None,
            },
            match event_type {
                Some(t) => Some(t@),
                None => None,
            },
        ));
    }
    out
}

/// Whether some entry of `keys` holds exactly the characters of `key`.
pub open spec fn spec_key_in(keys: Seq<String>, key: Seq<char>) -> bool {
    exists|j: int| 0 <= j < keys.len() && (#[trigger] keys[j])@ == key
}

/// A record of which object keys were put and which frame rows were
/// committed, in the order it happened.  Its invariant is the
/// upload-then-index ordering: a key can only be committed after an
/// upload of that key was recorded.
pub struct UploadLedger {
    /// Keys of successful object puts, oldest first
    pub uploaded: Vec<String>,
    /// Keys of committed frame rows, oldest first
    pub committed: Vec<String>,
}

impl UploadLedger {
    /// Every committed key was uploaded first.
    pub open spec fn wf(self) -> bool {
        forall|i: int|
            0 <= i < self.committed@.len() ==> spec_key_in(
                self.uploaded@,
                (#[trigger] self.committed@[i])@,
            )
    }

    pub fn new() -> (r: Self)
        ensures
            r.wf(),
            r.uploaded@.len() == 0,
            r.committed@.len() == 0,
    {
        UploadLedger { uploaded: Vec::new(), committed: Vec::new() }
    }

    /// Record a successful object put.
    pub fn record_upload(&mut self, key: String)
        requires
            old(self).wf(),
        ensures
            final(self).wf(),
            final(self).uploaded@ == old(self).uploaded@.push(key),
            final(self).committed@ == old(self).committed@,
    {
        self.uploaded.push(key);
        proof {
            assert forall|i: int| 0 <= i < self.committed@.len() implies spec_key_in(
                self.uploaded@,
                (#[trigger] self.committed@[i])@,
            ) by {
                let j0 = choose|j0: int|
                    0 <= j0 < old(self).uploaded@.len() && (#[trigger] old(self).uploaded@[j0])@
                        == (self.committed@[i])@;
                assert(self.uploaded@[j0] == old(self).uploaded@[j0]);
            }
        }
    }

    /// Whether a put of `key` was recorded.
    pub fn has_upload(&self, key: &str) -> (r: bool)
        ensures
            r == spec_key_in(self.uploaded@, key@),
    {
        let k: String = key.to_owned();
        let mut i: usize = 0;
        while i < self.uploaded.len()
            invariant
                k@ == key@,
                i <= self.uploaded@.len(),
                forall|j: int| 0 <= j < i ==> (#[trigger] self.uploaded@[j])@ != key@,
            decreases self.uploaded@.len() - i,
        {
            if self.uploaded[i] == k {
                return true;
            }
            i = i + 1;
        }
        false
    }

    /// Record a committed frame row; only a key whose put was recorded
    /// can be committed.
    pub fn record_commit(&mut self, key: String)
        requires
            old(self).wf(),
            spec_key_in(old(self).uploaded@, key@),
        ensures
            final(self).wf(),
            final(self).uploaded@ == old(self).uploaded@,
            final(self).committed@ == old(self).committed@.push(key),
    {
        self.committed.push(key);
        proof {
            assert forall|i: int| 0 <= i < self.committed@.len() implies spec_key_in(
                self.uploaded@,
                (#[trigger] self.committed@[i])@,
            ) by {
                if i < self.committed@.len() - 1 {
                    assert(self.committed@[i] == old(self).committed@[i]);
                } else {
                    assert(self.committed@[i] == key);
                }
            }
        }
    }

    /// Commit `key` only if its put was recorded; reports whether the
    /// commit was taken.
    pub fn commit_after_upload(&mut self, key: String) -> (r: bool)
        requires
            old(self).wf(),
        ensures
            final(self).wf(),
            final(self).uploaded@ == old(self).uploaded@,
            r == spec_key_in(old(self).uploaded@, key@),
            r ==> final(self).committed@ == old(self).committed@.push(key),
            !r ==> final(self).committed@ == old(self).committed@,
    {
        if self.has_upload(key.as_str()) {
            self.record_commit(key);
            true
        } else {
            false
        }
    }
}

/// Upload-then-index ordering: in a well-formed ledger, every committed
/// frame key has a preceding successful object put of the same key.
pub proof fn lemma_upload_ordering(ledger: UploadLedger)
    requires
        ledger.wf(),
    ensures
        forall|i: int|
            0 <= i < ledger.committed@.len() ==> spec_key_in(
                ledger.uploaded@,
                (#[trigger] ledger.committed@[i])@,
            ),
{
}

} // verus!
