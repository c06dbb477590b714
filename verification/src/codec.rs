//! The JSON wire form of storage trigger events.
//!
//! The encoder renders an event as one JSON object with the frame bytes
//! in base64, exactly as `spec_encode_event` lays it out; the decoder
//! parses that form, tolerating whitespace between tokens and the common
//! string escapes, and returns only well-formed events.  The canonical
//! reading (`spec_decode_event_text`) provably inverts the rendering:
//! `lemma_event_round_trip` shows that encoding then decoding preserves
//! every field of a well-formed event, the frame bytes included.

use vstd::prelude::*;
use crate::b64::{base64_decode, base64_encode, spec_b64, spec_b64_decode, lemma_b64_round_trip};
use crate::datetime::{parse_rfc3339, spec_parse_rfc3339, lemma_rfc3339_round_trip};
use crate::datetime::UtcDateTime;
use crate::events::{Detection, StorageTriggerEvent, TriggerType, spec_is_uuid_text};
use crate::strutil::{
    append_milli_display, append_u64, digit_val, push_char, spec_digit_char, spec_digit_val,
    spec_milli_display, spec_seq_val, spec_u64_dec, str_eq,
};

verus! {

/// Why a payload was rejected.
#[derive(Debug, Clone, Copy, PartialEq, Eq, Structural)]
pub enum DecodeError {
    /// The payload is not the JSON form of a storage trigger event
    Malformed,
}

/// Whether a character passes into a JSON string literal unescaped.
pub open spec fn spec_json_safe(c: char) -> bool {
    c != '"' && c != '\\' && c as u32 >= 32
}

/// Hex digit character (lower case) of a value below 16.
pub open spec fn spec_hex_char(v: int) -> char {
    if v < 10 {
        spec_digit_char(v)
    } else if v == 10 {
        'a'
    } else if v == 11 {
        'b'
    } else if v == 12 {
        'c'
    } else if v == 13 {
        'd'
    } else if v == 14 {
        'e'
    } else {
        'f'
    }
}

/// The escape of one character: safe characters stand for themselves;
/// newline, tab and return take their two-character escapes; everything
/// else takes the `\u00xx` form.
pub open spec fn spec_escape_char(c: char) -> Seq<char> {
    if spec_json_safe(c) {
        seq![c]
    } else if c == '\n' {
        seq!['\\', 'n']
    } else if c == '\t' {
        seq!['\\', 't']
    } else if c == '\r' {
        seq!['\\', 'r']
    } else {
        seq!['\\', 'u', '0', '0', spec_hex_char((c as u32 / 16) as int), spec_hex_char((c as u32 % 16) as int)]
    }
}

/// The body of a JSON string literal holding `s`.
pub open spec fn spec_escape(s: Seq<char>) -> Seq<char>
    decreases s.len(),
{
    if s.len() == 0 {
        Seq::empty()
    } else {
        spec_escape_char(s.first()) + spec_escape(s.drop_first())
    }
}

/// A JSON string literal holding `s`.
pub open spec fn spec_quote(s: Seq<char>) -> Seq<char> {
    seq!['"'] + spec_escape(s) + seq!['"']
}

/// A flat string map as a JSON value: `null`, or an object of string
/// members.
pub open spec fn spec_meta_entries(entries: Seq<(String, String)>) -> Seq<char>
    decreases entries.len(),
{
    if entries.len() == 0 {
        Seq::empty()
    } else if entries.len() == 1 {
        spec_quote(entries[0].0@) + seq![':'] + spec_quote(entries[0].1@)
    } else {
        spec_meta_entries(entries.drop_last()) + seq![','] + spec_quote(entries.last().0@)
            + seq![':'] + spec_quote(entries.last().1@)
    }
}

pub open spec fn spec_meta(meta: Option<Vec<(String, String)>>) -> Seq<char> {
    match meta {
        None => "null"@,
        Some(entries) => seq!['{'] + spec_meta_entries(entries@) + seq!['}'],
    }
}

/// One detection as a JSON object.
pub open spec fn spec_detection_json(d: Detection) -> Seq<char> {
    "{\"detection_type\":"@ + spec_quote(d.detection_type@) + ",\"confidence\":"@
        + spec_milli_display(d.confidence_milli as int) + ",\"bbox\":["@ + spec_milli_display(
        d.bbox_milli@[0] as int,
    ) + seq![','] + spec_milli_display(d.bbox_milli@[1] as int) + seq![','] + spec_milli_display(
        d.bbox_milli@[2] as int,
    ) + seq![','] + spec_milli_display(d.bbox_milli@[3] as int) + "],\"attributes\":"@ + spec_meta(
        d.attributes,
    ) + seq!['}']
}

/// The detection list as a JSON array.
pub open spec fn spec_detections_json(dets: Seq<Detection>) -> Seq<char>
    decreases dets.len(),
{
    if dets.len() == 0 {
        Seq::empty()
    } else if dets.len() == 1 {
        spec_detection_json(dets[0])
    } else {
        spec_detections_json(dets.drop_last()) + seq![','] + spec_detection_json(dets.last())
    }
}

/// The JSON form of a storage trigger event.
pub open spec fn spec_encode_event(e: StorageTriggerEvent) -> Seq<char> {
    "{\"event_id\":"@ + spec_quote(e.event_id@) + ",\"device_id\":"@ + spec_quote(e.device_id@)
        + ",\"timestamp\":"@ + spec_quote(e.timestamp.spec_rfc3339()) + ",\"frame_number\":"@
        + spec_u64_dec(e.frame_number as int) + ",\"frame_data\":"@ + spec_quote(
        spec_b64(e.frame_data@),
    ) + ",\"width\":"@ + spec_u64_dec(e.width as int) + ",\"height\":"@ + spec_u64_dec(
        e.height as int,
    ) + ",\"format\":"@ + spec_quote(e.format@) + ",\"detections\":["@ + spec_detections_json(
        e.detections@,
    ) + "],\"trigger_type\":"@ + spec_quote(e.trigger_type.spec_name()) + ",\"metadata\":"@
        + spec_meta(e.metadata) + seq!['}']
}

fn hex_char(v: u32) -> (c: char)
    requires
        v < 16,
    ensures
        c == spec_hex_char(v as int),
{
    if v < 10 {
        crate::strutil::digit_char(v as u64)
    } else if v == 10 {
        'a'
    } else if v == 11 {
        'b'
    } else if v == 12 {
        'c'
    } else if v == 13 {
        'd'
    } else if v == 14 {
        'e'
    } else {
        'f'
    }
}

/// Append the JSON string literal holding `s`.
pub fn append_quoted(out: &mut String, s: &str)
    ensures
        final(out)@ == old(out)@ + spec_quote(s@),
{
    push_char(out, '"');
    let len = s.unicode_len();
    let mut i: usize = 0;
    proof {
        assert(s@.take(0) =~= Seq::<char>::empty());
        assert(out@ =~= old(out)@ + seq!['"'] + spec_escape(s@.take(0)));
    }
    while i < len
        invariant
            len == s@.len(),
            i <= len,
            out@ == old(out)@ + seq!['"'] + spec_escape(s@.take(i as int)),
        decreases len - i,
    {
        let c = s.get_char(i);
        let cv = c as u32;
        if c != '"' && c != '\\' && cv >= 32 {
            push_char(out, c);
        } else if c == '\n' {
            push_char(out, '\\');
            push_char(out, 'n');
        } else if c == '\t' {
            push_char(out, '\\');
            push_char(out, 't');
        } else if c == '\r' {
            push_char(out, '\\');
            push_char(out, 'r');
        } else {
            push_char(out, '\\');
            push_char(out, 'u');
            push_char(out, '0');
            push_char(out, '0');
            push_char(out, hex_char(cv / 16));
            push_char(out, hex_char(cv % 16));
        }
        proof {
            lemma_escape_snoc(s@.take(i + 1int));
            assert(s@.take(i + 1int).drop_last() =~= s@.take(i as int));
            assert(s@.take(i + 1int).last() == s@[i as int]);
            assert(out@ =~= old(out)@ + seq!['"'] + spec_escape(s@.take(i + 1int)));
        }
        i = i + 1;
    }
    push_char(out, '"');
    proof {
        assert(s@.take(len as int) =~= s@);
        assert(out@ =~= old(out)@ + spec_quote(s@));
    }
}

/// The front-recursive escape also peels from the back.
proof fn lemma_escape_snoc(s: Seq<char>)
    requires
        s.len() > 0,
    ensures
        spec_escape(s) == spec_escape(s.drop_last()) + spec_escape_char(s.last()),
    decreases s.len(),
{
    if s.len() == 1 {
        assert(s.drop_first() =~= Seq::<char>::empty());
        assert(s.drop_last() =~= Seq::<char>::empty());
        assert(spec_escape(s) =~= spec_escape(s.drop_last()) + spec_escape_char(s.last()));
    } else {
        lemma_escape_snoc(s.drop_first());
        assert(s.drop_first().drop_last() =~= s.drop_last().drop_first());
        assert(s.drop_first().last() == s.last());
        assert(s.drop_last().len() > 0);
        assert(s.drop_last().first() == s.first());
        assert(spec_escape(s.drop_last()) == spec_escape_char(s.first()) + spec_escape(
            s.drop_last().drop_first(),
        ));
        assert(spec_escape(s) =~= spec_escape(s.drop_last()) + spec_escape_char(s.last()));
    }
}

/// Append the JSON value of a flat string map.
fn append_meta(out: &mut String, meta: &Option<Vec<(String, String)>>)
    ensures
        final(out)@ == old(out)@ + spec_meta(*meta),
{
    match meta {
        None => {
            out.append("null");
        },
        Some(entries) => {
            push_char(out, '{');
            let mut i: usize = 0;
            proof {
                assert(entries@.take(0) =~= Seq::<(String, String)>::empty());
            }
            while i < entries.len()
                invariant
                    i <= entries@.len(),
                    out@ == old(out)@ + seq!['{'] + spec_meta_entries(entries@.take(i as int)),
                decreases entries@.len() - i,
            {
                if i > 0 {
                    push_char(out, ',');
                }
                append_quoted(out, entries[i].0.as_str());
                push_char(out, ':');
                append_quoted(out, entries[i].1.as_str());
                proof {
                    assert(entries@.take(i + 1int).drop_last() =~= entries@.take(i as int));
                    assert(entries@.take(i + 1int).last() == entries@[i as int]);
                    assert(entries@.take(i + 1int)[0] == entries@[0]);
                    assert(out@ =~= old(out)@ + seq!['{'] + spec_meta_entries(
                        entries@.take(i + 1int),
                    ));
                }
                i = i + 1;
            }
            push_char(out, '}');
            proof {
                assert(entries@.take(entries@.len() as int) =~= entries@);
                assert(out@ =~= old(out)@ + spec_meta(*meta));
            }
        },
    }
}

/// Append one detection as a JSON object.
fn append_detection(out: &mut String, d: &Detection)
    ensures
        final(out)@ == old(out)@ + spec_detection_json(*d),
{
    out.append("{\"detection_type\":");
    append_quoted(out, d.detection_type.as_str());
    out.append(",\"confidence\":");
    append_milli_display(out, d.confidence_milli);
    out.append(",\"bbox\":[");
    append_milli_display(out, d.bbox_milli[0]);
    push_char(out, ',');
    append_milli_display(out, d.bbox_milli[1]);
    push_char(out, ',');
    append_milli_display(out, d.bbox_milli[2]);
    push_char(out, ',');
    append_milli_display(out, d.bbox_milli[3]);
    out.append("],\"attributes\":");
    append_meta(out, &d.attributes);
    push_char(out, '}');
    proof {
        assert(final(out)@ =~= old(out)@ + spec_detection_json(*d));
    }
}

/// Render a storage trigger event as its JSON wire form.
pub fn encode_storage_event(e: &StorageTriggerEvent) -> (r: String)
    requires
        e.timestamp.wf(),
    ensures
        r@ == spec_encode_event(*e),
{
    let mut out = String::new();
    out.append("{\"event_id\":");
    append_quoted(&mut out, e.event_id.as_str());
    out.append(",\"device_id\":");
    append_quoted(&mut out, e.device_id.as_str());
    out.append(",\"timestamp\":");
    let ts = e.timestamp.format_rfc3339();
    append_quoted(&mut out, ts.as_str());
    out.append(",\"frame_number\":");
    append_u64(&mut out, e.frame_number);
    out.append(",\"frame_data\":");
    let data = base64_encode(&e.frame_data);
    append_quoted(&mut out, data.as_str());
    out.append(",\"width\":");
    append_u64(&mut out, e.width as u64);
    out.append(",\"height\":");
    append_u64(&mut out, e.height as u64);
    out.append(",\"format\":");
    append_quoted(&mut out, e.format.as_str());
    out.append(",\"detections\":[");
    let mut i: usize = 0;
    let ghost prefix = out@;
    proof {
        assert(e.detections@.take(0) =~= Seq::<Detection>::empty());
        assert(out@ =~= prefix + spec_detections_json(e.detections@.take(0)));
    }
    while i < e.detections.len()
        invariant
            i <= e.detections@.len(),
            out@ == prefix + spec_detections_json(e.detections@.take(i as int)),
        decreases e.detections@.len() - i,
    {
        if i > 0 {
            push_char(&mut out, ',');
        }
        append_detection(&mut out, &e.detections[i]);
        proof {
            assert(e.detections@.take(i + 1int).drop_last() =~= e.detections@.take(i as int));
            assert(e.detections@.take(i + 1int).last() == e.detections@[i as int]);
            assert(e.detections@.take(i + 1int)[0] == e.detections@[0]);
            assert(out@ =~= prefix + spec_detections_json(e.detections@.take(i + 1int)));
        }
        i = i + 1;
    }
    out.append("],\"trigger_type\":");
    append_quoted(&mut out, e.trigger_type.name());
    out.append(",\"metadata\":");
    append_meta(&mut out, &e.metadata);
    push_char(&mut out, '}');
    proof {
        assert(e.detections@.take(e.detections@.len() as int) =~= e.detections@);
        assert(out@ =~= spec_encode_event(*e));
    }
    out
}

/// What an escaped string-literal body denotes, or nothing where it is
/// not one: the inverse reading of `spec_escape`.
pub open spec fn spec_unescape(w: Seq<char>) -> Option<Seq<char>>
    decreases w.len(),
{
    if w.len() == 0 {
        Some(Seq::empty())
    } else if w[0] == '"' {
        None
    } else if w[0] != '\\' {
        match spec_unescape(w.skip(1)) {
            Some(rest) => Some(seq![w[0]] + rest),
            None => None,
        }
    } else if w.len() >= 2 && (w[1] == 'n' || w[1] == 't' || w[1] == 'r' || w[1] == '"' || w[1]
        == '\\' || w[1] == '/' || w[1] == 'b' || w[1] == 'f') {
        let c = if w[1] == 'n' {
            '\n'
        } else if w[1] == 't' {
            '\t'
        } else if w[1] == 'r' {
            '\r'
        } else if w[1] == 'b' {
            8u8 as char
        } else if w[1] == 'f' {
            12u8 as char
        } else {
            w[1]
        };
        match spec_unescape(w.skip(2)) {
            Some(rest) => Some(seq![c] + rest),
            None => None,
        }
    } else if w.len() >= 6 && w[1] == 'u' && spec_hex_val(w[2]) >= 0 && spec_hex_val(w[3]) >= 0
        && spec_hex_val(w[4]) >= 0 && spec_hex_val(w[5]) >= 0 && spec_code_of(w) < 0xD800 {
        match spec_unescape(w.skip(6)) {
            Some(rest) => Some(seq![(spec_code_of(w) as u32 as char)] + rest),
            None => None,
        }
    } else {
        None
    }
}

/// The code denoted by the four hex digits of a `\uXXXX` escape at the
/// head of `w`.
pub open spec fn spec_code_of(w: Seq<char>) -> int {
    ((spec_hex_val(w[2]) * 16 + spec_hex_val(w[3])) * 16 + spec_hex_val(w[4])) * 16 + spec_hex_val(
        w[5],
    )
}

/// Value of a lower-case hex digit, or -1.
pub open spec fn spec_hex_val(c: char) -> int {
    let v = c as int;
    if 48 <= v && v < 58 {
        v - 48
    } else if 97 <= v && v < 103 {
        v - 87
    } else {
        -1
    }
}

/// Unescaping inverts escaping: string literal bodies written by the
/// encoder read back as the characters they were made from.
pub proof fn lemma_unescape_escape(s: Seq<char>)
    ensures
        spec_unescape(spec_escape(s)) == Some(s),
    decreases s.len(),
{
    if s.len() == 0 {
    } else {
        let c = s.first();
        let w = spec_escape(s);
        lemma_unescape_escape(s.drop_first());
        assert(w == spec_escape_char(c) + spec_escape(s.drop_first()));
        if spec_json_safe(c) {
            assert(w[0] == c);
            assert(w.skip(1) =~= spec_escape(s.drop_first()));
            assert(seq![c] + s.drop_first() =~= s);
        } else if c == '\n' || c == '\t' || c == '\r' {
            assert(w[0] == '\\');
            assert(w.skip(2) =~= spec_escape(s.drop_first()));
            assert(seq![c] + s.drop_first() =~= s);
        } else {
            let v = (c as u32) as int;
            assert(v < 32 || v == 34 || v == 92);
            assert(w[0] == '\\' && w[1] == 'u' && w[2] == '0' && w[3] == '0');
            assert(w[4] == spec_hex_char(v / 16) && w[5] == spec_hex_char(v % 16));
            assert(spec_hex_val('0') == 0);
            assert(v < 32 || v == 34 || v == 92);
            assert(0 <= v / 16 && v / 16 < 10);
            assert(0 <= v % 16 && v % 16 < 16);
            assert(spec_hex_char(v / 16) == crate::strutil::spec_digit_char(v / 16));
            assert(spec_hex_val(spec_hex_char(v / 16)) == v / 16);
            assert(spec_hex_val(spec_hex_char(v % 16)) == v % 16);
            assert(spec_code_of(w) == v);
            vstd::utf8::char_u32_cast(c, v as u32);
            assert(v as u32 as char == c);
            assert(w.skip(6) =~= spec_escape(s.drop_first()));
            assert(seq![c] + s.drop_first() =~= s);
        }
    }
}

/// Relies on std's `char::from_u32`: `Some` exactly for Unicode scalar
/// values (not a surrogate, at most `0x10FFFF`), holding the character
/// with that code.
#[verifier::external_body]
fn char_from_u32(v: u32) -> (r: Option<char>)
    ensures
        r is Some <==> (v < 0xD800 || (0xE000 <= v && v <= 0x10FFFF)),
        r matches Some(c) ==> c as u32 == v,
{
    char::from_u32(v)
}

/// Whether a character is JSON whitespace.
fn is_ws(c: char) -> (r: bool)
    ensures
        r == (c == ' ' || c == '\n' || c == '\t' || c == '\r'),
{
    c == ' ' || c == '\n' || c == '\t' || c == '\r'
}

/// First position at or after `pos` holding a non-whitespace character.
fn skip_ws(s: &str, len: usize, pos: usize) -> (r: usize)
    requires
        len == s@.len(),
        pos <= len,
    ensures
        pos <= r <= len,
{
    let mut i = pos;
    while i < len
        invariant
            pos <= i <= len,
            len == s@.len(),
        decreases len - i,
    {
        if !is_ws(s.get_char(i)) {
            return i;
        }
        i = i + 1;
    }
    i
}

/// Consume an exact token at `pos`.
fn expect_tok(s: &str, len: usize, pos: usize, tok: &str) -> (r: Option<usize>)
    requires
        len == s@.len(),
        pos <= len,
    ensures
        r matches Some(p2) ==> pos <= p2 <= len,
{
    let tlen = tok.unicode_len();
    if len - pos < tlen {
        return None;
    }
    let mut i: usize = 0;
    while i < tlen
        invariant
            i <= tlen,
            len == s@.len(),
            tlen == tok@.len(),
            pos + tlen <= len,
        decreases tlen - i,
    {
        if s.get_char(pos + i) != tok.get_char(i) {
            return None;
        }
        i = i + 1;
    }
    Some(pos + tlen)
}

/// Read a decimal unsigned integer at `pos`.
fn parse_u64(s: &str, len: usize, pos: usize) -> (r: Option<(u64, usize)>)
    requires
        len == s@.len(),
        pos <= len,
    ensures
        r matches Some(v) ==> pos < v.1 <= len,
{
    let mut acc: u64 = 0;
    let mut i = pos;
    while i < len
        invariant
            pos <= i <= len,
            len == s@.len(),
        decreases len - i,
    {
        let d = digit_val(s.get_char(i));
        if d < 0 {
            break ;
        }
        if acc > (u64::MAX - d as u64) / 10 {
            return None;
        }
        acc = acc * 10 + d as u64;
        i = i + 1;
    }
    if i == pos {
        None
    } else {
        Some((acc, i))
    }
}

/// Read a non-negative decimal number at `pos` into thousandths of its
/// value; fractional digits beyond the third are read and dropped.
fn parse_milli(s: &str, len: usize, pos: usize) -> (r: Option<(u32, usize)>)
    requires
        len == s@.len(),
        pos <= len,
    ensures
        r matches Some(v) ==> pos < v.1 <= len,
{
    let (whole, mut cur) = match parse_u64(s, len, pos) {
        Some(v) => v,
        None => {
            return None;
        },
    };
    if whole > ((u32::MAX - 999) / 1000) as u64 {
        return None;
    }
    let mut milli: u32 = (whole as u32) * 1000;
    if cur < len && s.get_char(cur) == '.' {
        let fstart = cur + 1;
        let mut scale: u32 = 100;
        let mut j = fstart;
        while j < len
            invariant
                fstart <= j <= len,
                len == s@.len(),
                scale == 100 || scale == 10 || scale == 1 || scale == 0,
                scale == 100 ==> milli <= 4294966000,
                scale == 10 ==> milli <= 4294966900,
                scale == 1 ==> milli <= 4294966990,
                milli <= 4294966999,
            decreases len - j,
        {
            let d = digit_val(s.get_char(j));
            if d < 0 {
                break ;
            }
            if scale > 0 {
                milli = milli + (d as u32) * scale;
                scale = scale / 10;
            }
            j = j + 1;
        }
        if j == fstart {
            return None;
        }
        cur = j;
    }
    Some((milli, cur))
}

/// Read a JSON string literal at `pos`.
fn parse_string(s: &str, len: usize, pos: usize) -> (r: Option<(String, usize)>)
    requires
        len == s@.len(),
        pos <= len,
    ensures
        r matches Some(v) ==> pos < v.1 <= len,
{
    if pos >= len || s.get_char(pos) != '"' {
        return None;
    }
    let mut out = String::new();
    let mut cur = pos + 1;
    loop
        invariant
            pos + 1 <= cur <= len,
            len == s@.len(),
        decreases len - cur,
    {
        if cur >= len {
            return None;
        }
        let c = s.get_char(cur);
        if c == '"' {
            return Some((out, cur + 1));
        } else if c == '\\' {
            if len - cur < 2 {
                return None;
            }
            let e = s.get_char(cur + 1);
            if e == 'n' {
                push_char(&mut out, '\n');
                cur = cur + 2;
            } else if e == 't' {
                push_char(&mut out, '\t');
                cur = cur + 2;
            } else if e == 'r' {
                push_char(&mut out, '\r');
                cur = cur + 2;
            } else if e == '"' || e == '\\' || e == '/' {
                push_char(&mut out, e);
                cur = cur + 2;
            } else if e == 'b' {
                push_char(&mut out, (8u8 as char));
                cur = cur + 2;
            } else if e == 'f' {
                push_char(&mut out, (12u8 as char));
                cur = cur + 2;
            } else if e == 'u' {
                if len - cur < 6 {
                    return None;
                }
                let h0 = hex_val(s.get_char(cur + 2));
                let h1 = hex_val(s.get_char(cur + 3));
                let h2 = hex_val(s.get_char(cur + 4));
                let h3 = hex_val(s.get_char(cur + 5));
                if h0 < 0 || h1 < 0 || h2 < 0 || h3 < 0 {
                    return None;
                }
                let code: u32 = ((h0 as u32 * 16 + h1 as u32) * 16 + h2 as u32) * 16 + h3 as u32;
                match char_from_u32(code) {
                    Some(ch) => {
                        push_char(&mut out, ch);
                        cur = cur + 6;
                    },
                    None => {
                        return None;
                    },
                }
            } else {
                return None;
            }
        } else {
            push_char(&mut out, c);
            cur = cur + 1;
        }
    }
}

/// Value of a lower-case hex digit character.
fn hex_val(c: char) -> (r: i8)
    ensures
        r as int == spec_hex_val(c),
{
    let v = c as u32;
    if 48 <= v && v < 58 {
        (v - 48) as i8
    } else if 97 <= v && v < 103 {
        (v - 87) as i8
    } else {
        -1
    }
}

/// Read a flat string map: `null` or an object of string members.
fn parse_meta(s: &str, len: usize, pos: usize) -> (r: Option<
    (Option<Vec<(String, String)>>, usize),
>)
    requires
        len == s@.len(),
        pos <= len,
    ensures
        r matches Some(v) ==> pos <= v.1 <= len,
{
    if pos < len && s.get_char(pos) == 'n' {
        match expect_tok(s, len, pos, "null") {
            Some(p2) => {
                return Some((None, p2));
            },
            None => {
                return None;
            },
        }
    }
    if pos >= len || s.get_char(pos) != '{' {
        return None;
    }
    let mut entries: Vec<(String, String)> = Vec::new();
    let mut cur = skip_ws(s, len, pos + 1);
    if cur < len && s.get_char(cur) == '}' {
        return Some((Some(entries), cur + 1));
    }
    loop
        invariant
            pos < cur <= len,
            len == s@.len(),
        decreases len - cur,
    {
        let (key, p1) = match parse_string(s, len, cur) {
            Some(v) => v,
            None => {
                return None;
            },
        };
        let p2 = skip_ws(s, len, p1);
        let p3 = match expect_tok(s, len, p2, ":") {
            Some(v) => v,
            None => {
                return None;
            },
        };
        let p4 = skip_ws(s, len, p3);
        let (val, p5) = match parse_string(s, len, p4) {
            Some(v) => v,
            None => {
                return None;
            },
        };
        entries.push((key, val));
        let p6 = skip_ws(s, len, p5);
        if p6 >= len {
            return None;
        }
        if s.get_char(p6) == '}' {
            return Some((Some(entries), p6 + 1));
        }
        if s.get_char(p6) != ',' {
            return None;
        }
        let next = skip_ws(s, len, p6 + 1);
        if next <= cur {
            return None;
        }
        cur = next;
    }
}

/// Read one detection object.
fn parse_detection(s: &str, len: usize, pos: usize) -> (r: Option<(Detection, usize)>)
    requires
        len == s@.len(),
        pos <= len,
    ensures
        r matches Some(v) ==> pos <= v.1 <= len && v.0.wf(),
{
    let p0 = match expect_tok(s, len, pos, "{") {
        Some(v) => v,
        None => {
            return None;
        },
    };
    let p1 = skip_ws(s, len, p0);
    let p2 = match expect_tok(s, len, p1, "\"detection_type\"") {
        Some(v) => v,
        None => {
            return None;
        },
    };
    let p3 = skip_ws(s, len, p2);
    let p4 = match expect_tok(s, len, p3, ":") {
        Some(v) => v,
        None => {
            return None;
        },
    };
    let p5 = skip_ws(s, len, p4);
    let (dtype, p6) = match parse_string(s, len, p5) {
        Some(v) => v,
        None => {
            return None;
        },
    };
    let p7 = skip_ws(s, len, p6);
    let p8 = match expect_tok(s, len, p7, ",") {
        Some(v) => v,
        None => {
            return None;
        },
    };
    let p9 = skip_ws(s, len, p8);
    let p10 = match expect_tok(s, len, p9, "\"confidence\"") {
        Some(v) => v,
        None => {
            return None;
        },
    };
    let p11 = skip_ws(s, len, p10);
    let p12 = match expect_tok(s, len, p11, ":") {
        Some(v) => v,
        None => {
            return None;
        },
    };
    let p13 = skip_ws(s, len, p12);
    let (conf, p14) = match parse_milli(s, len, p13) {
        Some(v) => v,
        None => {
            return None;
        },
    };
    if conf > 1000 {
        return None;
    }
    let p15 = skip_ws(s, len, p14);
    let p16 = match expect_tok(s, len, p15, ",") {
        Some(v) => v,
        None => {
            return None;
        },
    };
    let p17 = skip_ws(s, len, p16);
    let p18 = match expect_tok(s, len, p17, "\"bbox\"") {
        Some(v) => v,
        None => {
            return None;
        },
    };
    let p19 = skip_ws(s, len, p18);
    let p20 = match expect_tok(s, len, p19, ":") {
        Some(v) => v,
        None => {
            return None;
        },
    };
    let p21 = skip_ws(s, len, p20);
    let p22 = match expect_tok(s, len, p21, "[") {
        Some(v) => v,
        None => {
            return None;
        },
    };
    let (b0, q0) = match parse_bbox_elem(s, len, p22, false) {
        Some(v) => v,
        None => {
            return None;
        },
    };
    let (b1, q1) = match parse_bbox_elem(s, len, q0, false) {
        Some(v) => v,
        None => {
            return None;
        },
    };
    let (b2, q2) = match parse_bbox_elem(s, len, q1, false) {
        Some(v) => v,
        None => {
            return None;
        },
    };
    let (b3, q3) = match parse_bbox_elem(s, len, q2, true) {
        Some(v) => v,
        None => {
            return None;
        },
    };
    let bbox: [u32; 4] = [b0, b1, b2, b3];
    let p23 = skip_ws(s, len, q3);
    let p24 = match expect_tok(s, len, p23, ",") {
        Some(v) => v,
        None => {
            return None;
        },
    };
    let p25 = skip_ws(s, len, p24);
    let p26 = match expect_tok(s, len, p25, "\"attributes\"") {
        Some(v) => v,
        None => {
            return None;
        },
    };
    let p27 = skip_ws(s, len, p26);
    let p28 = match expect_tok(s, len, p27, ":") {
        Some(v) => v,
        None => {
            return None;
        },
    };
    let p29 = skip_ws(s, len, p28);
    let (attrs, p30) = match parse_meta(s, len, p29) {
        Some(v) => v,
        None => {
            return None;
        },
    };
    let p31 = skip_ws(s, len, p30);
    let p32 = match expect_tok(s, len, p31, "}") {
        Some(v) => v,
        None => {
            return None;
        },
    };
    let d = Detection { detection_type: dtype, confidence_milli: conf, bbox_milli: bbox, attributes: attrs };
    Some((d, p32))
}

/// One element of a bounding box: a unit-interval value, followed by a
/// comma, or by the closing bracket for the last element.
fn parse_bbox_elem(s: &str, len: usize, pos: usize, last: bool) -> (r: Option<(u32, usize)>)
    requires
        len == s@.len(),
        pos <= len,
    ensures
        r matches Some(v) ==> pos <= v.1 <= len && v.0 <= 1000,
{
    let pa = skip_ws(s, len, pos);
    let (v, pb) = match parse_milli(s, len, pa) {
        Some(v) => v,
        None => {
            return None;
        },
    };
    if v > 1000 {
        return None;
    }
    let pc = skip_ws(s, len, pb);
    let tok = if last {
        "]"
    } else {
        ","
    };
    match expect_tok(s, len, pc, tok) {
        Some(p2) => Some((v, p2)),
        None => None,
    }
}

/// Whether the event id has the hyphenated lower-case UUID shape.
fn is_uuid_text(s: &str) -> (r: bool)
    ensures
        r == spec_is_uuid_text(s@),
{
    let len = s.unicode_len();
    if len != 36 {
        return false;
    }
    let mut i: usize = 0;
    while i < 36
        invariant
            i <= 36,
            s@.len() == 36,
            forall|j: int|
                0 <= j < i ==> if j == 8 || j == 13 || j == 18 || j == 23 {
                    s@[j] == '-'
                } else {
                    crate::events::spec_is_hex_lower(#[trigger] s@[j])
                },
        decreases 36 - i,
    {
        let c = s.get_char(i);
        if i == 8 || i == 13 || i == 18 || i == 23 {
            if c != '-' {
                return false;
            }
        } else {
            if !(('0' <= c && c <= '9') || ('a' <= c && c <= 'f')) {
                return false;
            }
        }
        i = i + 1;
    }
    true
}

/// Read the trigger kind from its wire name, computing what
/// `spec_trigger_of` denotes on it.
fn trigger_from_name(name: &str) -> (r: Option<TriggerType>)
    ensures
        r == spec_trigger_of(name@),
{
    if str_eq(name, "detection") {
        Some(TriggerType::Detection)
    } else if str_eq(name, "sample") {
        Some(TriggerType::Sample)
    } else if str_eq(name, "debug") {
        Some(TriggerType::Debug)
    } else if str_eq(name, "manual") {
        Some(TriggerType::Manual)
    } else if str_eq(name, "alert") {
        Some(TriggerType::Alert)
    } else {
        None
    }
}

/// Decode a canonical event text, computing exactly what
/// `spec_decode_event_text` denotes on it.
#[verifier::rlimit(100)]
#[verifier::spinoff_prover]
fn decode_canonical(s: &str, len: usize) -> (r: Option<StorageTriggerEvent>)
    requires
        len == s@.len(),
    ensures
        match spec_decode_event_text(s@) {
            Some(view) => r matches Some(ev) && ev.wf() && spec_event_view(ev) == view,
            None => r is None,
        },
{
    proof {
        assert(s@.skip(0) =~= s@);
        reveal_strlit("}");
        assert("}"@ =~= seq!['}']);
    }
    let p0 = match c_eat_tok(s, len, 0, "{\"event_id\":") {
        Some(v) => v,
        None => {
            return None;
        },
    };
    let (event_id, c1) = match c_eat_str(s, len, p0) {
        Some(v) => v,
        None => {
            return None;
        },
    };
    let c2 = match c_eat_tok(s, len, c1, ",\"device_id\":") {
        Some(v) => v,
        None => {
            return None;
        },
    };
    let (device_id, c3) = match c_eat_str(s, len, c2) {
        Some(v) => v,
        None => {
            return None;
        },
    };
    let c4 = match c_eat_tok(s, len, c3, ",\"timestamp\":") {
        Some(v) => v,
        None => {
            return None;
        },
    };
    let (ts_text, c5) = match c_eat_str(s, len, c4) {
        Some(v) => v,
        None => {
            return None;
        },
    };
    let timestamp = match parse_rfc3339(ts_text.as_str()) {
        Some(t) => t,
        None => {
            return None;
        },
    };
    let c6 = match c_eat_tok(s, len, c5, ",\"frame_number\":") {
        Some(v) => v,
        None => {
            return None;
        },
    };
    let (frame_number, c7) = match c_eat_num(s, len, c6) {
        Some(v) => v,
        None => {
            return None;
        },
    };
    let c8 = match c_eat_tok(s, len, c7, ",\"frame_data\":") {
        Some(v) => v,
        None => {
            return None;
        },
    };
    let (b64_text, c9) = match c_eat_str(s, len, c8) {
        Some(v) => v,
        None => {
            return None;
        },
    };
    let frame_data = match base64_decode(b64_text.as_str()) {
        Ok(v) => v,
        Err(_) => {
            return None;
        },
    };
    if !is_uuid_text(event_id.as_str()) || frame_number > u64::MAX as u128 {
        return None;
    }
    let c10 = match c_eat_tok(s, len, c9, ",\"width\":") {
        Some(v) => v,
        None => {
            return None;
        },
    };
    let (width, c11) = match c_eat_num(s, len, c10) {
        Some(v) => v,
        None => {
            return None;
        },
    };
    let c12 = match c_eat_tok(s, len, c11, ",\"height\":") {
        Some(v) => v,
        None => {
            return None;
        },
    };
    let (height, c13) = match c_eat_num(s, len, c12) {
        Some(v) => v,
        None => {
            return None;
        },
    };
    let c14 = match c_eat_tok(s, len, c13, ",\"format\":") {
        Some(v) => v,
        None => {
            return None;
        },
    };
    let (format, c15) = match c_eat_str(s, len, c14) {
        Some(v) => v,
        None => {
            return None;
        },
    };
    let c16 = match c_eat_tok(s, len, c15, ",\"detections\":[") {
        Some(v) => v,
        None => {
            return None;
        },
    };
    let (detections, c17) = if c16 < len && s.get_char(c16) == ']' {
        proof {
            assert(s@.skip(c16 as int)[0] == ']');
            assert(spec_dets_view(Seq::<Detection>::empty()) =~= Seq::<
                (Seq<char>, int, int, int, int, int, Option<Seq<(Seq<char>, Seq<char>)>>),
            >::empty());
        }
        (Vec::<Detection>::new(), c16)
    } else {
        proof {
            if c16 < len {
                assert(s@.skip(c16 as int)[0] != ']');
            } else {
                assert(s@.skip(c16 as int).len() == 0);
            }
        }
        match c_eat_detections(s, len, c16) {
            Some(v) => v,
            None => {
                return None;
            },
        }
    };
    let c18 = match c_eat_tok(s, len, c17, "],\"trigger_type\":") {
        Some(v) => v,
        None => {
            return None;
        },
    };
    let (trig_text, c19) = match c_eat_str(s, len, c18) {
        Some(v) => v,
        None => {
            return None;
        },
    };
    let trigger_type = match trigger_from_name(trig_text.as_str()) {
        Some(t) => t,
        None => {
            return None;
        },
    };
    let c20 = match c_eat_tok(s, len, c19, ",\"metadata\":") {
        Some(v) => v,
        None => {
            return None;
        },
    };
    let (metadata, c21) = match c_eat_meta(s, len, c20) {
        Some(v) => v,
        None => {
            return None;
        },
    };
    let c22 = match c_eat_tok(s, len, c21, "}") {
        Some(v) => v,
        None => {
            return None;
        },
    };
    if c22 != len {
        proof {
            assert(s@.skip(c22 as int).len() != 0);
        }
        return None;
    }
    if width > u32::MAX as u128 || height > u32::MAX as u128 {
        return None;
    }
    proof {
        assert(s@.skip(c22 as int).len() == 0);
    }
    let ev = StorageTriggerEvent {
        event_id,
        device_id,
        timestamp,
        frame_number: frame_number as u64,
        frame_data,
        width: width as u32,
        height: height as u32,
        format,
        detections,
        trigger_type,
        metadata,
    };
    proof {
        assert(ev.wf());
    }
    Some(ev)
}

/// Parse a storage trigger event from its JSON wire form: the fields in
/// their wire order, whitespace between tokens tolerated, the frame
/// bytes in base64, the timestamp in RFC 3339 form.  On any canonical
/// text — anything the encoder can produce — decoding succeeds and
/// returns exactly the fields the text renders; together with
/// `lemma_event_round_trip` this makes decoding invert
/// `encode_storage_event` field for field.
pub fn decode_storage_event(s: &str) -> (r: Result<StorageTriggerEvent, DecodeError>)
    ensures
        r matches Ok(ev) ==> ev.wf(),
        spec_decode_event_text(s@) matches Some(view) ==> (r matches Ok(ev) && spec_event_view(ev)
            == view),
{
    let len = s.unicode_len();
    let canonical = decode_canonical(s, len);
    match canonical {
        Some(ev) => {
            return Ok(ev);
        },
        None => {},
    }
    proof {
        assert(spec_decode_event_text(s@) is None);
    }
    let p0 = skip_ws(s, len, 0);
    let p1 = match expect_tok(s, len, p0, "{") {
        Some(v) => v,
        None => {
            return Err(DecodeError::Malformed);
        },
    };
    // event_id
    let (event_id, c1) = match parse_key_string(s, len, p1, "\"event_id\"", false) {
        Some(v) => v,
        None => {
            return Err(DecodeError::Malformed);
        },
    };
    if !is_uuid_text(event_id.as_str()) {
        return Err(DecodeError::Malformed);
    }
    // device_id
    let (device_id, c2) = match parse_key_string(s, len, c1, "\"device_id\"", true) {
        Some(v) => v,
        None => {
            return Err(DecodeError::Malformed);
        },
    };
    // timestamp
    let (ts_text, c3) = match parse_key_string(s, len, c2, "\"timestamp\"", true) {
        Some(v) => v,
        None => {
            return Err(DecodeError::Malformed);
        },
    };
    let timestamp = match parse_rfc3339(ts_text.as_str()) {
        Some(t) => t,
        None => {
            return Err(DecodeError::Malformed);
        },
    };
    // frame_number
    let c4 = match parse_key(s, len, c3, "\"frame_number\"", true) {
        Some(v) => v,
        None => {
            return Err(DecodeError::Malformed);
        },
    };
    let (frame_number, c5) = match parse_u64(s, len, c4) {
        Some(v) => v,
        None => {
            return Err(DecodeError::Malformed);
        },
    };
    // frame_data
    let (data_text, c6) = match parse_key_string(s, len, c5, "\"frame_data\"", true) {
        Some(v) => v,
        None => {
            return Err(DecodeError::Malformed);
        },
    };
    let frame_data = match base64_decode(data_text.as_str()) {
        Ok(v) => v,
        Err(_) => {
            return Err(DecodeError::Malformed);
        },
    };
    // width
    let c7 = match parse_key(s, len, c6, "\"width\"", true) {
        Some(v) => v,
        None => {
            return Err(DecodeError::Malformed);
        },
    };
    let (width, c8) = match parse_u64(s, len, c7) {
        Some(v) => v,
        None => {
            return Err(DecodeError::Malformed);
        },
    };
    if width > u32::MAX as u64 {
        return Err(DecodeError::Malformed);
    }
    // height
    let c9 = match parse_key(s, len, c8, "\"height\"", true) {
        Some(v) => v,
        None => {
            return Err(DecodeError::Malformed);
        },
    };
    let (height, c10) = match parse_u64(s, len, c9) {
        Some(v) => v,
        None => {
            return Err(DecodeError::Malformed);
        },
    };
    if height > u32::MAX as u64 {
        return Err(DecodeError::Malformed);
    }
    // format
    let (format, c11) = match parse_key_string(s, len, c10, "\"format\"", true) {
        Some(v) => v,
        None => {
            return Err(DecodeError::Malformed);
        },
    };
    // detections
    let c12 = match parse_key(s, len, c11, "\"detections\"", true) {
        Some(v) => v,
        None => {
            return Err(DecodeError::Malformed);
        },
    };
    let c13 = match expect_tok(s, len, c12, "[") {
        Some(v) => v,
        None => {
            return Err(DecodeError::Malformed);
        },
    };
    let mut detections: Vec<Detection> = Vec::new();
    let mut cur = skip_ws(s, len, c13);
    if cur < len && s.get_char(cur) == ']' {
        cur = cur + 1;
    } else {
        loop
            invariant
                cur <= len,
                len == s@.len(),
                spec_decode_event_text(s@) is None,
                forall|i: int| 0 <= i < detections@.len() ==> (#[trigger] detections@[i]).wf(),
            decreases len - cur,
        {
            let (d, pa) = match parse_detection(s, len, cur) {
                Some(v) => v,
                None => {
                    return Err(DecodeError::Malformed);
                },
            };
            detections.push(d);
            let pb = skip_ws(s, len, pa);
            if pb >= len {
                return Err(DecodeError::Malformed);
            }
            if s.get_char(pb) == ']' {
                cur = pb + 1;
                break ;
            }
            if s.get_char(pb) != ',' {
                return Err(DecodeError::Malformed);
            }
            let next = skip_ws(s, len, pb + 1);
            if next <= cur {
                return Err(DecodeError::Malformed);
            }
            cur = next;
        }
    }
    // trigger_type
    let (trig_text, c14) = match parse_key_string(s, len, cur, "\"trigger_type\"", true) {
        Some(v) => v,
        None => {
            return Err(DecodeError::Malformed);
        },
    };
    let trigger_type = match trigger_from_name(trig_text.as_str()) {
        Some(t) => t,
        None => {
            return Err(DecodeError::Malformed);
        },
    };
    // metadata
    let c15 = match parse_key(s, len, c14, "\"metadata\"", true) {
        Some(v) => v,
        None => {
            return Err(DecodeError::Malformed);
        },
    };
    let (metadata, c16) = match parse_meta(s, len, c15) {
        Some(v) => v,
        None => {
            return Err(DecodeError::Malformed);
        },
    };
    let c17 = skip_ws(s, len, c16);
    let c18 = match expect_tok(s, len, c17, "}") {
        Some(v) => v,
        None => {
            return Err(DecodeError::Malformed);
        },
    };
    let c19 = skip_ws(s, len, c18);
    if c19 != len {
        return Err(DecodeError::Malformed);
    }
    Ok(
        StorageTriggerEvent {
            event_id,
            device_id,
            timestamp,
            frame_number,
            frame_data,
            width: width as u32,
            height: height as u32,
            format,
            detections,
            trigger_type,
            metadata,
        },
    )
}

/// What the canonical wire text denotes, read from the front: these
/// spec functions consume one piece each and hand back the rest.  They
/// read exactly what the encoder writes; together with the round-trip
/// lemmas below they show that the wire format loses no field of a
/// well-formed event.
///
/// Consume an exact token.
pub open spec fn spec_eat(s: Seq<char>, tok: Seq<char>) -> Option<Seq<char>> {
    if s.len() >= tok.len() && s.subrange(0, tok.len() as int) == tok {
        Some(s.skip(tok.len() as int))
    } else {
        None
    }
}

/// Index of the first double quote, or the length when there is none.
pub open spec fn spec_find_quote(s: Seq<char>) -> int
    decreases s.len(),
{
    if s.len() == 0 {
        0
    } else if s[0] == '"' {
        0
    } else {
        1 + spec_find_quote(s.drop_first())
    }
}

/// Consume a string literal: the unescaped body up to the first closing
/// quote, and the rest.
pub open spec fn spec_eat_str(s: Seq<char>) -> Option<(Seq<char>, Seq<char>)> {
    if s.len() == 0 || s[0] != '"' {
        None
    } else {
        let q = spec_find_quote(s.skip(1));
        if 1 + q >= s.len() {
            None
        } else {
            match spec_unescape(s.subrange(1, 1 + q)) {
                Some(body) => Some((body, s.skip(2 + q))),
                None => None,
            }
        }
    }
}

/// Length of the leading run of decimal digits.
pub open spec fn spec_digit_run(s: Seq<char>) -> int
    decreases s.len(),
{
    if s.len() == 0 {
        0
    } else if spec_digit_val(s[0]) < 0 {
        0
    } else {
        1 + spec_digit_run(s.drop_first())
    }
}

/// Consume an unsigned decimal number of at most twenty digits (every
/// 64-bit value fits; the encoder never writes more).
pub open spec fn spec_eat_num(s: Seq<char>) -> Option<(int, Seq<char>)> {
    let k = spec_digit_run(s);
    if k == 0 || k > 20 {
        None
    } else {
        Some((spec_seq_val(s.take(k)), s.skip(k)))
    }
}

/// Consume a decimal number into thousandths of its value, reading up to
/// three fractional digits as the encoder writes them.
pub open spec fn spec_eat_milli(s: Seq<char>) -> Option<(int, Seq<char>)> {
    match spec_eat_num(s) {
        None => None,
        Some((whole, rest)) => if rest.len() > 0 && rest[0] == '.' {
            let frac = rest.skip(1);
            let k = spec_digit_run(frac);
            if k == 0 {
                None
            } else {
                let v = spec_seq_val(frac.take(if k >= 3 {
                    3int
                } else {
                    k
                }));
                let scale: int = if k >= 3 {
                    1
                } else if k == 2 {
                    10
                } else {
                    100
                };
                Some((whole * 1000 + v * scale, frac.skip(k)))
            }
        } else {
            Some((whole * 1000, rest))
        },
    }
}

/// Consume the members of a non-empty string-map object, up to and
/// including the closing brace.
pub open spec fn spec_eat_meta_entries(s: Seq<char>) -> Option<
    (Seq<(Seq<char>, Seq<char>)>, Seq<char>),
>
    decreases s.len(),
{
    match spec_eat_str(s) {
        None => None,
        Some((key, r1)) => if r1.len() == 0 || r1[0] != ':' {
            None
        } else {
            match spec_eat_str(r1.skip(1)) {
                None => None,
                Some((val, r2)) => if r2.len() > 0 && r2[0] == ',' {
                    if r2.skip(1).len() < s.len() {
                        match spec_eat_meta_entries(r2.skip(1)) {
                            Some((more, r3)) => Some((seq![(key, val)] + more, r3)),
                            None => None,
                        }
                    } else {
                        None
                    }
                } else if r2.len() > 0 && r2[0] == '}' {
                    Some((seq![(key, val)], r2.skip(1)))
                } else {
                    None
                },
            }
        },
    }
}

/// Consume a string-map value: `null` or an object of string members.
pub open spec fn spec_eat_meta(s: Seq<char>) -> Option<
    (Option<Seq<(Seq<char>, Seq<char>)>>, Seq<char>),
> {
    if s.len() >= 4 && s.subrange(0, 4) == "null"@ {
        Some((None, s.skip(4)))
    } else if s.len() >= 2 && s[0] == '{' && s[1] == '}' {
        Some((Some(Seq::empty()), s.skip(2)))
    } else if s.len() > 0 && s[0] == '{' {
        match spec_eat_meta_entries(s.skip(1)) {
            Some((entries, rest)) => Some((Some(entries), rest)),
            None => None,
        }
    } else {
        None
    }
}

/// The characters of a flat string map's entries.
pub open spec fn spec_pairs_view(v: Seq<(String, String)>) -> Seq<(Seq<char>, Seq<char>)> {
    v.map_values(|p: (String, String)| (p.0@, p.1@))
}

/// The characters of a string-map value.
pub open spec fn spec_meta_view(meta: Option<Vec<(String, String)>>) -> Option<
    Seq<(Seq<char>, Seq<char>)>,
> {
    match meta {
        None => None,
        Some(entries) => Some(spec_pairs_view(entries@)),
    }
}

/// The back-recursive member rendering also peels from the front.
#[verifier::rlimit(100)]
#[verifier::spinoff_prover]
proof fn lemma_meta_entries_front(v: Seq<(String, String)>)
    requires
        v.len() >= 2,
    ensures
        spec_meta_entries(v) == spec_quote(v[0].0@) + seq![':'] + spec_quote(v[0].1@) + seq![',']
            + spec_meta_entries(v.drop_first()),
    decreases v.len(),
{
    if v.len() == 2 {
        assert(v.drop_last().len() == 1);
        assert(v.drop_last()[0] == v[0]);
        assert(v.drop_first().len() == 1);
        assert(v.drop_first()[0] == v[1]);
        assert(v.last() == v[1]);
        assert(spec_meta_entries(v) =~= spec_quote(v[0].0@) + seq![':'] + spec_quote(v[0].1@)
            + seq![','] + spec_meta_entries(v.drop_first()));
    } else {
        lemma_meta_entries_front(v.drop_last());
        assert(v.drop_last()[0] == v[0]);
        assert(v.drop_last().drop_first() =~= v.drop_first().drop_last());
        assert(v.drop_first().last() == v.last());
        assert(v.drop_first().len() >= 2);
        assert(spec_meta_entries(v) == spec_meta_entries(v.drop_last()) + seq![',']
            + spec_quote(v.last().0@) + seq![':'] + spec_quote(v.last().1@));
        assert(spec_meta_entries(v.drop_first()) == spec_meta_entries(v.drop_first().drop_last())
            + seq![','] + spec_quote(v.drop_first().last().0@) + seq![':'] + spec_quote(
            v.drop_first().last().1@,
        ));
        assert(spec_meta_entries(v) =~= spec_quote(v[0].0@) + seq![':'] + spec_quote(v[0].1@)
            + seq![','] + spec_meta_entries(v.drop_first()));
    }
}

/// Reading the members of a rendered non-empty map takes exactly them,
/// through the closing brace.
#[verifier::spinoff_prover]
proof fn lemma_eat_meta_entries(v: Seq<(String, String)>, rest: Seq<char>)
    requires
        v.len() >= 1,
    ensures
        spec_eat_meta_entries(spec_meta_entries(v) + seq!['}'] + rest) == Some(
            (spec_pairs_view(v), rest),
        ),
    decreases v.len(),
{
    let s = spec_meta_entries(v) + seq!['}'] + rest;
    if v.len() == 1 {
        let key = v[0].0@;
        let val = v[0].1@;
        assert(s =~= spec_quote(key) + (seq![':'] + spec_quote(val) + seq!['}'] + rest));
        lemma_eat_str(key, seq![':'] + spec_quote(val) + seq!['}'] + rest);
        let r1 = seq![':'] + spec_quote(val) + seq!['}'] + rest;
        assert(r1[0] == ':');
        assert(r1.skip(1) =~= spec_quote(val) + (seq!['}'] + rest));
        lemma_eat_str(val, seq!['}'] + rest);
        let r2 = seq!['}'] + rest;
        assert(r2[0] == '}');
        assert(r2.skip(1) =~= rest);
        assert(spec_pairs_view(v) =~= seq![(key, val)]);
    } else {
        lemma_meta_entries_front(v);
        let key = v[0].0@;
        let val = v[0].1@;
        let tail_text = spec_meta_entries(v.drop_first()) + seq!['}'] + rest;
        assert(s =~= spec_quote(key) + (seq![':'] + spec_quote(val) + seq![','] + tail_text));
        lemma_eat_str(key, seq![':'] + spec_quote(val) + seq![','] + tail_text);
        let r1 = seq![':'] + spec_quote(val) + seq![','] + tail_text;
        assert(r1[0] == ':');
        assert(r1.skip(1) =~= spec_quote(val) + (seq![','] + tail_text));
        lemma_eat_str(val, seq![','] + tail_text);
        let r2 = seq![','] + tail_text;
        assert(r2[0] == ',');
        assert(r2.skip(1) =~= tail_text);
        assert(r2.skip(1).len() < s.len());
        lemma_eat_meta_entries(v.drop_first(), rest);
        assert(spec_pairs_view(v) =~= seq![(key, val)] + spec_pairs_view(v.drop_first()));
    }
}

/// Reading a rendered string-map value takes exactly it.
proof fn lemma_eat_meta(meta: Option<Vec<(String, String)>>, rest: Seq<char>)
    ensures
        spec_eat_meta(spec_meta(meta) + rest) == Some((spec_meta_view(meta), rest)),
{
    let s = spec_meta(meta) + rest;
    reveal_strlit("null");
    match meta {
        None => {
            assert(s.len() >= 4);
            assert(s.subrange(0, 4) =~= "null"@);
            assert(s.skip(4) =~= rest);
        },
        Some(entries) => {
            assert(s[0] == '{');
            if s.len() >= 4 {
                assert(s.subrange(0, 4)[0] == '{');
                assert("null"@[0] == 'n');
                assert(s.subrange(0, 4) != "null"@);
            }
            if entries@.len() == 0 {
                assert(spec_meta_entries(entries@) =~= Seq::<char>::empty());
                assert(s[1] == '}');
                assert(s.skip(2) =~= rest);
                assert(spec_pairs_view(entries@) =~= Seq::<(Seq<char>, Seq<char>)>::empty());
            } else {
                let body = spec_meta_entries(entries@);
                assert(body[0] == '"') by {
                    lemma_meta_entries_first(entries@);
                }
                assert(s[1] == body[0]);
                assert(s[1] != '}');
                assert(s.skip(1) =~= body + seq!['}'] + rest);
                lemma_eat_meta_entries(entries@, rest);
            }
        },
    }
}

/// A non-empty member rendering opens with a double quote.
proof fn lemma_meta_entries_first(v: Seq<(String, String)>)
    requires
        v.len() >= 1,
    ensures
        spec_meta_entries(v).len() > 0 && spec_meta_entries(v)[0] == '"',
    decreases v.len(),
{
    if v.len() == 1 {
        assert(spec_meta_entries(v)[0] == spec_quote(v[0].0@)[0]);
    } else {
        lemma_meta_entries_first(v.drop_last());
        assert(spec_meta_entries(v)[0] == spec_meta_entries(v.drop_last())[0]);
    }
}

/// The characters, thousandth values and attribute view of one
/// detection.
pub open spec fn spec_det_view(d: Detection) -> (
    Seq<char>,
    int,
    int,
    int,
    int,
    int,
    Option<Seq<(Seq<char>, Seq<char>)>>,
) {
    (
        d.detection_type@,
        d.confidence_milli as int,
        d.bbox_milli@[0] as int,
        d.bbox_milli@[1] as int,
        d.bbox_milli@[2] as int,
        d.bbox_milli@[3] as int,
        spec_meta_view(d.attributes),
    )
}

/// Consume the four comma-separated values of a bounding box.
pub open spec fn spec_eat_bbox(s: Seq<char>) -> Option<((int, int, int, int), Seq<char>)> {
    match spec_eat_milli(s) {
        None => None,
        Some((b0, r0)) => match spec_eat(r0, seq![',']) {
            None => None,
            Some(r1) => match spec_eat_milli(r1) {
                None => None,
                Some((b1, r2)) => match spec_eat(r2, seq![',']) {
                    None => None,
                    Some(r3) => match spec_eat_milli(r3) {
                        None => None,
                        Some((b2, r4)) => match spec_eat(r4, seq![',']) {
                            None => None,
                            Some(r5) => match spec_eat_milli(r5) {
                                None => None,
                                Some((b3, r6)) => Some(((b0, b1, b2, b3), r6)),
                            },
                        },
                    },
                },
            },
        },
    }
}

/// Consume one detection object; its confidence and box values must be
/// unit-interval thousandths.
#[verifier::opaque]
pub open spec fn spec_eat_detection(s: Seq<char>) -> Option<
    ((Seq<char>, int, int, int, int, int, Option<Seq<(Seq<char>, Seq<char>)>>), Seq<char>),
> {
    match spec_eat(s, "{\"detection_type\":"@) {
        None => None,
        Some(r0) => match spec_eat_str(r0) {
            None => None,
            Some((dtype, r1)) => match spec_eat(r1, ",\"confidence\":"@) {
                None => None,
                Some(r2) => match spec_eat_milli(r2) {
                    None => None,
                    Some((conf, r3)) => match spec_eat(r3, ",\"bbox\":["@) {
                        None => None,
                        Some(r4) => match spec_eat_bbox(r4) {
                            None => None,
                            Some((bbox, r5)) => match spec_eat(r5, "],\"attributes\":"@) {
                                None => None,
                                Some(r6) => match spec_eat_meta(r6) {
                                    None => None,
                                    Some((attrs, r7)) => match spec_eat(r7, seq!['}']) {
                                        None => None,
                                        Some(r8) => if 0 <= conf <= 1000 && 0 <= bbox.0 <= 1000
                                            && 0 <= bbox.1 <= 1000 && 0 <= bbox.2 <= 1000 && 0
                                            <= bbox.3 <= 1000 {
                                            Some(
                                                (
                                                    (
                                                        dtype,
                                                        conf,
                                                        bbox.0,
                                                        bbox.1,
                                                        bbox.2,
                                                        bbox.3,
                                                        attrs,
                                                    ),
                                                    r8,
                                                ),
                                            )
                                        } else {
                                            None
                                        },
                                    },
                                },
                            },
                        },
                    },
                },
            },
        },
    }
}

/// The detection text from each field on, right-associated so that each
/// reading step peels one piece by definition.
pub open spec fn spec_det_s1(d: Detection, rest: Seq<char>) -> Seq<char> {
    spec_quote(d.detection_type@) + spec_det_s2(d, rest)
}

pub open spec fn spec_det_s2(d: Detection, rest: Seq<char>) -> Seq<char> {
    ",\"confidence\":"@ + spec_det_s3(d, rest)
}

pub open spec fn spec_det_s3(d: Detection, rest: Seq<char>) -> Seq<char> {
    spec_milli_display(d.confidence_milli as int) + spec_det_s4(d, rest)
}

pub open spec fn spec_det_s4(d: Detection, rest: Seq<char>) -> Seq<char> {
    ",\"bbox\":["@ + spec_det_s5(d, rest)
}

pub open spec fn spec_det_s5(d: Detection, rest: Seq<char>) -> Seq<char> {
    spec_milli_display(d.bbox_milli@[0] as int) + (seq![','] + (spec_milli_display(
        d.bbox_milli@[1] as int,
    ) + (seq![','] + (spec_milli_display(d.bbox_milli@[2] as int) + (seq![','] + (
    spec_milli_display(d.bbox_milli@[3] as int) + spec_det_s6(d, rest)))))))
}

pub open spec fn spec_det_s6(d: Detection, rest: Seq<char>) -> Seq<char> {
    "],\"attributes\":"@ + spec_det_s7(d, rest)
}

pub open spec fn spec_det_s7(d: Detection, rest: Seq<char>) -> Seq<char> {
    spec_meta(d.attributes) + (seq!['}'] + rest)
}

/// Concatenation is associative.
proof fn lemma_assoc(a: Seq<char>, b: Seq<char>, c: Seq<char>)
    ensures
        (a + b) + c == a + (b + c),
{
    assert((a + b) + c =~= a + (b + c));
}

/// The rendered detection followed by `rest` reads as the
/// right-associated chain of its pieces.
#[verifier::spinoff_prover]
proof fn lemma_det_shape(d: Detection, rest: Seq<char>)
    ensures
        spec_detection_json(d) + rest == "{\"detection_type\":"@ + spec_det_s1(d, rest),
{
    let a0 = "{\"detection_type\":"@;
    let a1 = spec_quote(d.detection_type@);
    let a2 = ",\"confidence\":"@;
    let a3 = spec_milli_display(d.confidence_milli as int);
    let a4 = ",\"bbox\":["@;
    let a5 = spec_milli_display(d.bbox_milli@[0] as int);
    let a6 = seq![','];
    let a7 = spec_milli_display(d.bbox_milli@[1] as int);
    let a8 = seq![','];
    let a9 = spec_milli_display(d.bbox_milli@[2] as int);
    let a10 = seq![','];
    let a11 = spec_milli_display(d.bbox_milli@[3] as int);
    let a12 = "],\"attributes\":"@;
    let a13 = spec_meta(d.attributes);
    let a14 = seq!['}'];
    assert(spec_detection_json(d) == a0 + a1 + a2 + a3 + a4 + a5 + a6 + a7 + a8 + a9
        + a10 + a11 + a12 + a13 + a14);
    let s15 = rest;
    let s14 = a14 + s15;
    lemma_assoc(a0 + a1 + a2 + a3 + a4 + a5 + a6 + a7 + a8 + a9 + a10 + a11 + a12 + a13, a14, s15);
    let s13 = a13 + s14;
    lemma_assoc(a0 + a1 + a2 + a3 + a4 + a5 + a6 + a7 + a8 + a9 + a10 + a11 + a12, a13, s14);
    let s12 = a12 + s13;
    lemma_assoc(a0 + a1 + a2 + a3 + a4 + a5 + a6 + a7 + a8 + a9 + a10 + a11, a12, s13);
    let s11 = a11 + s12;
    lemma_assoc(a0 + a1 + a2 + a3 + a4 + a5 + a6 + a7 + a8 + a9 + a10, a11, s12);
    let s10 = a10 + s11;
    lemma_assoc(a0 + a1 + a2 + a3 + a4 + a5 + a6 + a7 + a8 + a9, a10, s11);
    let s9 = a9 + s10;
    lemma_assoc(a0 + a1 + a2 + a3 + a4 + a5 + a6 + a7 + a8, a9, s10);
    let s8 = a8 + s9;
    lemma_assoc(a0 + a1 + a2 + a3 + a4 + a5 + a6 + a7, a8, s9);
    let s7 = a7 + s8;
    lemma_assoc(a0 + a1 + a2 + a3 + a4 + a5 + a6, a7, s8);
    let s6 = a6 + s7;
    lemma_assoc(a0 + a1 + a2 + a3 + a4 + a5, a6, s7);
    let s5 = a5 + s6;
    lemma_assoc(a0 + a1 + a2 + a3 + a4, a5, s6);
    let s4 = a4 + s5;
    lemma_assoc(a0 + a1 + a2 + a3, a4, s5);
    let s3 = a3 + s4;
    lemma_assoc(a0 + a1 + a2, a3, s4);
    let s2 = a2 + s3;
    lemma_assoc(a0 + a1, a2, s3);
    let s1 = a1 + s2;
    lemma_assoc(a0, a1, s2);
    assert(s1 == spec_det_s1(d, rest));
}
/// Reading a rendered bounding box takes exactly its four values.
#[verifier::rlimit(100)]
#[verifier::spinoff_prover]
proof fn lemma_eat_bbox(d: Detection, rest: Seq<char>)
    requires
        d.wf(),
    ensures
        spec_eat_bbox(spec_det_s5(d, rest)) == Some(
            (
                (
                    d.bbox_milli@[0] as int,
                    d.bbox_milli@[1] as int,
                    d.bbox_milli@[2] as int,
                    d.bbox_milli@[3] as int,
                ),
                spec_det_s6(d, rest),
            ),
        ),
{
    let b0 = d.bbox_milli@[0] as int;
    let b1 = d.bbox_milli@[1] as int;
    let b2 = d.bbox_milli@[2] as int;
    let b3 = d.bbox_milli@[3] as int;
    reveal_strlit("],\"attributes\":");
    let u1 = seq![','] + (spec_milli_display(b1) + (seq![','] + (spec_milli_display(b2) + (
    seq![','] + (spec_milli_display(b3) + spec_det_s6(d, rest))))));
    assert(u1[0] == ',');
    lemma_eat_milli(b0, u1);
    let u2 = spec_milli_display(b1) + (seq![','] + (spec_milli_display(b2) + (seq![','] + (
    spec_milli_display(b3) + spec_det_s6(d, rest)))));
    lemma_eat_tok(seq![','], u2);
    let u3 = seq![','] + (spec_milli_display(b2) + (seq![','] + (spec_milli_display(b3)
        + spec_det_s6(d, rest))));
    assert(u3[0] == ',');
    lemma_eat_milli(b1, u3);
    let u4 = spec_milli_display(b2) + (seq![','] + (spec_milli_display(b3) + spec_det_s6(
        d,
        rest,
    )));
    lemma_eat_tok(seq![','], u4);
    let u5 = seq![','] + (spec_milli_display(b3) + spec_det_s6(d, rest));
    assert(u5[0] == ',');
    lemma_eat_milli(b2, u5);
    let u6 = spec_milli_display(b3) + spec_det_s6(d, rest);
    lemma_eat_tok(seq![','], u6);
    assert(spec_det_s6(d, rest)[0] == ']');
    assert(spec_digit_val(spec_det_s6(d, rest)[0]) < 0 && spec_det_s6(d, rest)[0] != '.');
    lemma_eat_milli(b3, spec_det_s6(d, rest));
}

/// Reading a rendered detection takes exactly it.
#[verifier::rlimit(100)]
#[verifier::spinoff_prover]
proof fn lemma_eat_detection(d: Detection, rest: Seq<char>)
    requires
        d.wf(),
    ensures
        spec_eat_detection(spec_detection_json(d) + rest) == Some((spec_det_view(d), rest)),
{
    reveal(spec_eat_detection);
    reveal_strlit(",\"confidence\":");
    reveal_strlit(",\"bbox\":[");
    lemma_det_shape(d, rest);
    lemma_eat_tok("{\"detection_type\":"@, spec_det_s1(d, rest));
    lemma_eat_str(d.detection_type@, spec_det_s2(d, rest));
    lemma_eat_tok(",\"confidence\":"@, spec_det_s3(d, rest));
    assert(spec_det_s4(d, rest)[0] == ',');
    assert(spec_digit_val(spec_det_s4(d, rest)[0]) < 0 && spec_det_s4(d, rest)[0] != '.');
    lemma_eat_milli(d.confidence_milli as int, spec_det_s4(d, rest));
    lemma_eat_tok(",\"bbox\":["@, spec_det_s5(d, rest));
    lemma_eat_bbox(d, rest);
    lemma_eat_tok("],\"attributes\":"@, spec_det_s7(d, rest));
    lemma_eat_meta(d.attributes, seq!['}'] + rest);
    lemma_eat_tok(seq!['}'], rest);
}

/// Consume the elements of a non-empty detection array, stopping at the
/// closing bracket.
pub open spec fn spec_eat_detections(s: Seq<char>) -> Option<
    (Seq<(Seq<char>, int, int, int, int, int, Option<Seq<(Seq<char>, Seq<char>)>>)>, Seq<char>),
>
    decreases s.len(),
{
    match spec_eat_detection(s) {
        None => None,
        Some((d, r)) => if r.len() > 0 && r[0] == ',' {
            if r.skip(1).len() < s.len() {
                match spec_eat_detections(r.skip(1)) {
                    Some((more, r2)) => Some((seq![d] + more, r2)),
                    None => None,
                }
            } else {
                None
            }
        } else if r.len() > 0 && r[0] == ']' {
            Some((seq![d], r))
        } else {
            None
        },
    }
}

/// The characters and values of a detection list.
pub open spec fn spec_dets_view(v: Seq<Detection>) -> Seq<
    (Seq<char>, int, int, int, int, int, Option<Seq<(Seq<char>, Seq<char>)>>),
> {
    v.map_values(|d: Detection| spec_det_view(d))
}

/// The back-recursive list rendering also peels from the front.
#[verifier::rlimit(100)]
#[verifier::spinoff_prover]
proof fn lemma_detections_front(v: Seq<Detection>)
    requires
        v.len() >= 2,
    ensures
        spec_detections_json(v) == spec_detection_json(v[0]) + seq![','] + spec_detections_json(
            v.drop_first(),
        ),
    decreases v.len(),
{
    if v.len() == 2 {
        assert(v.drop_last().len() == 1);
        assert(v.drop_last()[0] == v[0]);
        assert(v.drop_first().len() == 1);
        assert(v.drop_first()[0] == v[1]);
        assert(v.last() == v[1]);
        assert(spec_detections_json(v) =~= spec_detection_json(v[0]) + seq![',']
            + spec_detections_json(v.drop_first()));
    } else {
        lemma_detections_front(v.drop_last());
        assert(v.drop_last()[0] == v[0]);
        assert(v.drop_last().drop_first() =~= v.drop_first().drop_last());
        assert(v.drop_first().last() == v.last());
        assert(v.drop_first().len() >= 2);
        assert(spec_detections_json(v) == spec_detections_json(v.drop_last()) + seq![',']
            + spec_detection_json(v.last()));
        assert(spec_detections_json(v.drop_first()) == spec_detections_json(
            v.drop_first().drop_last(),
        ) + seq![','] + spec_detection_json(v.drop_first().last()));
        assert(spec_detections_json(v) =~= spec_detection_json(v[0]) + seq![',']
            + spec_detections_json(v.drop_first()));
    }
}

/// Reading the elements of a rendered non-empty detection array takes
/// exactly them, stopping at the closing bracket.
#[verifier::rlimit(100)]
#[verifier::spinoff_prover]
proof fn lemma_eat_detections(v: Seq<Detection>, rest: Seq<char>)
    requires
        v.len() >= 1,
        rest.len() > 0,
        rest[0] == ']',
        forall|i: int| 0 <= i < v.len() ==> (#[trigger] v[i]).wf(),
    ensures
        spec_eat_detections(spec_detections_json(v) + rest) == Some((spec_dets_view(v), rest)),
    decreases v.len(),
{
    let s = spec_detections_json(v) + rest;
    if v.len() == 1 {
        assert(spec_detections_json(v) == spec_detection_json(v[0]));
        lemma_eat_detection(v[0], rest);
        assert(spec_dets_view(v) =~= seq![spec_det_view(v[0])]);
    } else {
        lemma_detections_front(v);
        let head = spec_detection_json(v[0]);
        let tail = spec_detections_json(v.drop_first());
        let tail_text = tail + rest;
        assert(spec_detections_json(v) == head + seq![','] + tail);
        lemma_assoc(head + seq![','], tail, rest);
        lemma_assoc(head, seq![','], tail_text);
        assert(s == head + (seq![','] + tail_text));
        lemma_eat_detection(v[0], seq![','] + tail_text);
        let r = seq![','] + tail_text;
        assert(r[0] == ',');
        assert(r.skip(1) =~= tail_text);
        assert(r.skip(1).len() < s.len());
        assert forall|i: int| 0 <= i < v.drop_first().len() implies (
        #[trigger] v.drop_first()[i]).wf() by {
            assert(v.drop_first()[i] == v[i + 1]);
        }
        lemma_eat_detections(v.drop_first(), rest);
        assert(spec_dets_view(v) =~= seq![spec_det_view(v[0])] + spec_dets_view(v.drop_first()));
    }
}

/// Reading an exact token takes exactly it.
proof fn lemma_eat_tok(tok: Seq<char>, rest: Seq<char>)
    ensures
        spec_eat(tok + rest, tok) == Some(rest),
{
    let s = tok + rest;
    assert(s.subrange(0, tok.len() as int) =~= tok);
    assert(s.skip(tok.len() as int) =~= rest);
}

/// An escaped string body holds no raw double quote.
proof fn lemma_escape_no_quote(x: Seq<char>)
    ensures
        forall|i: int| 0 <= i < spec_escape(x).len() ==> #[trigger] spec_escape(x)[i] != '"',
    decreases x.len(),
{
    if x.len() > 0 {
        lemma_escape_no_quote(x.drop_first());
        let c = x.first();
        let head = spec_escape_char(c);
        assert forall|i: int| 0 <= i < spec_escape(x).len() implies #[trigger] spec_escape(x)[i]
            != '"' by {
            if i < head.len() {
                assert(spec_escape(x)[i] == head[i]);
                if spec_json_safe(c) {
                } else if c == '\n' || c == '\t' || c == '\r' {
                } else {
                    assert(spec_hex_char((c as u32 / 16) as int) as u32 != 34);
                    assert(spec_hex_char((c as u32 % 16) as int) as u32 != 34);
                }
            } else {
                assert(spec_escape(x)[i] == spec_escape(x.drop_first())[i - head.len()]);
            }
        }
    }
}

/// The first double quote after a quote-free run sits right past it.
proof fn lemma_find_quote_past(w: Seq<char>, rest: Seq<char>)
    requires
        forall|i: int| 0 <= i < w.len() ==> #[trigger] w[i] != '"',
        rest.len() > 0,
        rest[0] == '"',
    ensures
        spec_find_quote(w + rest) == w.len(),
    decreases w.len(),
{
    if w.len() == 0 {
        assert(w + rest =~= rest);
    } else {
        assert((w + rest)[0] == w[0]);
        assert((w + rest).drop_first() =~= w.drop_first() + rest);
        assert forall|i: int| 0 <= i < w.drop_first().len() implies #[trigger] w.drop_first()[i]
            != '"' by {
            assert(w.drop_first()[i] == w[i + 1]);
        }
        lemma_find_quote_past(w.drop_first(), rest);
    }
}

/// Reading a string literal takes exactly it and gives back its
/// characters.
proof fn lemma_eat_str(x: Seq<char>, rest: Seq<char>)
    ensures
        spec_eat_str(spec_quote(x) + rest) == Some((x, rest)),
{
    let s = spec_quote(x) + rest;
    let w = spec_escape(x);
    assert(s[0] == '"');
    lemma_escape_no_quote(x);
    assert(s.skip(1) =~= w + (seq!['"'] + rest));
    lemma_find_quote_past(w, seq!['"'] + rest);
    let q = spec_find_quote(s.skip(1));
    assert(q == w.len());
    assert(1 + q < s.len());
    assert(s.subrange(1, 1 + q) =~= w);
    lemma_unescape_escape(x);
    assert(s.skip(2 + q) =~= rest);
}

/// The leading digit run of a rendered number is exactly its digits.
proof fn lemma_digit_run_past(d: Seq<char>, rest: Seq<char>)
    requires
        crate::strutil::spec_all_digits(d),
        rest.len() == 0 || spec_digit_val(rest[0]) < 0,
    ensures
        spec_digit_run(d + rest) == d.len(),
    decreases d.len(),
{
    if d.len() == 0 {
        assert(d + rest =~= rest);
    } else {
        assert((d + rest)[0] == d[0]);
        assert(spec_digit_val(d[0]) >= 0);
        assert((d + rest).drop_first() =~= d.drop_first() + rest);
        assert forall|i: int| 0 <= i < d.drop_first().len() implies spec_digit_val(
            #[trigger] d.drop_first()[i],
        ) >= 0 by {
            assert(d.drop_first()[i] == d[i + 1]);
        }
        lemma_digit_run_past(d.drop_first(), rest);
    }
}

/// Reading a rendered 64-bit value takes exactly its digits and gives
/// back the value, whenever no digit follows it.
proof fn lemma_eat_num(n: int, rest: Seq<char>)
    requires
        0 <= n <= u64::MAX,
        rest.len() == 0 || spec_digit_val(rest[0]) < 0,
    ensures
        spec_eat_num(spec_u64_dec(n) + rest) == Some((n, rest)),
{
    let d = spec_u64_dec(n);
    let s = d + rest;
    crate::strutil::lemma_dec_val(n);
    crate::strutil::lemma_pow10_20();
    crate::strutil::lemma_dec_len(n, 20);
    lemma_digit_run_past(d, rest);
    assert(spec_digit_run(s) == d.len());
    assert(s.take(d.len() as int) =~= d);
    assert(s.skip(d.len() as int) =~= rest);
}

/// Reading a rendered thousandths value takes exactly its text and gives
/// back the value, whenever neither a digit nor a dot follows it.
#[verifier::spinoff_prover]
proof fn lemma_eat_milli(m: int, rest: Seq<char>)
    requires
        0 <= m <= 1000,
        rest.len() == 0 || (spec_digit_val(rest[0]) < 0 && rest[0] != '.'),
    ensures
        spec_eat_milli(spec_milli_display(m) + rest) == Some((m, rest)),
{
    crate::strutil::lemma_pow10_small();
    let whole = spec_u64_dec(m / 1000);
    let frac = m % 1000;
    let s = spec_milli_display(m) + rest;
    if frac == 0 {
        assert(spec_milli_display(m) =~= whole);
        assert(s =~= whole + rest);
        lemma_eat_num(m / 1000, rest);
        assert((m / 1000) * 1000 == m) by (nonlinear_arith)
            requires
                m % 1000 == 0,
                0 <= m,
        ;
    } else if frac % 100 == 0 {
        let tail = seq!['.', spec_digit_char(frac / 100)] + rest;
        assert(spec_milli_display(m) =~= whole + seq!['.'] + seq![spec_digit_char(frac / 100)]);
        assert(s =~= whole + tail);
        assert(tail[0] == '.');
        assert(spec_digit_val(tail[0]) < 0);
        lemma_eat_num(m / 1000, tail);
        let f = tail.skip(1);
        assert(f =~= seq![spec_digit_char(frac / 100)] + rest);
        assert(crate::strutil::spec_all_digits(seq![spec_digit_char(frac / 100)])) by {
            assert(spec_digit_val(spec_digit_char(frac / 100)) == frac / 100);
        }
        lemma_digit_run_past(seq![spec_digit_char(frac / 100)], rest);
        assert(spec_digit_run(f) == 1);
        assert(f.take(1) =~= seq![spec_digit_char(frac / 100)]);
        assert(spec_seq_val(f.take(1)) == frac / 100) by {
            let one = f.take(1);
            assert(one.len() == 1);
            assert(one.last() == spec_digit_char(frac / 100));
            assert(one.drop_last() =~= Seq::<char>::empty());
            assert(spec_seq_val(one.drop_last()) == 0);
            assert(spec_seq_val(one) == spec_seq_val(one.drop_last()) * 10 + spec_digit_val(
                one.last(),
            ));
            assert(spec_digit_val(spec_digit_char(frac / 100)) == frac / 100);
        }
        assert(f.skip(1) =~= rest);
        assert((m / 1000) * 1000 + (frac / 100) * 100 == m) by (nonlinear_arith)
            requires
                frac == m % 1000,
                frac % 100 == 0,
                0 <= m,
        ;
    } else if frac % 10 == 0 {
        let digits = crate::strutil::spec_u64_pad(frac / 10, 2);
        crate::strutil::lemma_pad_val(frac / 10, 2);
        let tail = seq!['.'] + digits + rest;
        assert(spec_milli_display(m) =~= whole + seq!['.'] + digits);
        assert(s =~= whole + tail);
        assert(tail[0] == '.');
        lemma_eat_num(m / 1000, tail);
        let f = tail.skip(1);
        assert(f =~= digits + rest);
        lemma_digit_run_past(digits, rest);
        assert(spec_digit_run(f) == 2);
        assert(f.take(2) =~= digits);
        assert(spec_seq_val(digits) == frac / 10) by {
            assert(frac / 10 < 100);
        }
        assert(f.skip(2) =~= rest);
        assert((m / 1000) * 1000 + (frac / 10) * 10 == m) by (nonlinear_arith)
            requires
                frac == m % 1000,
                frac % 10 == 0,
                frac % 100 != 0,
                0 <= m,
        ;
    } else {
        let digits = crate::strutil::spec_u64_pad(frac, 3);
        crate::strutil::lemma_pad_val(frac, 3);
        let tail = seq!['.'] + digits + rest;
        assert(spec_milli_display(m) =~= whole + seq!['.'] + digits);
        assert(s =~= whole + tail);
        assert(tail[0] == '.');
        lemma_eat_num(m / 1000, tail);
        let f = tail.skip(1);
        assert(f =~= digits + rest);
        lemma_digit_run_past(digits, rest);
        assert(spec_digit_run(f) == 3);
        assert(f.take(3) =~= digits);
        assert(spec_seq_val(digits) == frac) by {
            assert(frac < 1000);
        }
        assert(f.skip(3) =~= rest);
        assert((m / 1000) * 1000 + frac == m) by (nonlinear_arith)
            requires
                frac == m % 1000,
                0 <= m,
        ;
    }
}

/// The event text from each field on, right-associated so that each
/// reading step peels one piece by definition.
pub open spec fn spec_ev_s1(e: StorageTriggerEvent) -> Seq<char> {
    spec_quote(e.event_id@) + spec_ev_s2(e)
}

pub open spec fn spec_ev_s2(e: StorageTriggerEvent) -> Seq<char> {
    ",\"device_id\":"@ + spec_ev_s3(e)
}

pub open spec fn spec_ev_s3(e: StorageTriggerEvent) -> Seq<char> {
    spec_quote(e.device_id@) + spec_ev_s4(e)
}

pub open spec fn spec_ev_s4(e: StorageTriggerEvent) -> Seq<char> {
    ",\"timestamp\":"@ + spec_ev_s5(e)
}

pub open spec fn spec_ev_s5(e: StorageTriggerEvent) -> Seq<char> {
    spec_quote(e.timestamp.spec_rfc3339()) + spec_ev_s6(e)
}

pub open spec fn spec_ev_s6(e: StorageTriggerEvent) -> Seq<char> {
    ",\"frame_number\":"@ + spec_ev_s7(e)
}

pub open spec fn spec_ev_s7(e: StorageTriggerEvent) -> Seq<char> {
    spec_u64_dec(e.frame_number as int) + spec_ev_s8(e)
}

pub open spec fn spec_ev_s8(e: StorageTriggerEvent) -> Seq<char> {
    ",\"frame_data\":"@ + spec_ev_s9(e)
}

pub open spec fn spec_ev_s9(e: StorageTriggerEvent) -> Seq<char> {
    spec_quote(spec_b64(e.frame_data@)) + spec_ev_s10(e)
}

pub open spec fn spec_ev_s10(e: StorageTriggerEvent) -> Seq<char> {
    ",\"width\":"@ + spec_ev_s11(e)
}

pub open spec fn spec_ev_s11(e: StorageTriggerEvent) -> Seq<char> {
    spec_u64_dec(e.width as int) + spec_ev_s12(e)
}

pub open spec fn spec_ev_s12(e: StorageTriggerEvent) -> Seq<char> {
    ",\"height\":"@ + spec_ev_s13(e)
}

pub open spec fn spec_ev_s13(e: StorageTriggerEvent) -> Seq<char> {
    spec_u64_dec(e.height as int) + spec_ev_s14(e)
}

pub open spec fn spec_ev_s14(e: StorageTriggerEvent) -> Seq<char> {
    ",\"format\":"@ + spec_ev_s15(e)
}

pub open spec fn spec_ev_s15(e: StorageTriggerEvent) -> Seq<char> {
    spec_quote(e.format@) + spec_ev_s16(e)
}

pub open spec fn spec_ev_s16(e: StorageTriggerEvent) -> Seq<char> {
    ",\"detections\":["@ + spec_ev_s17(e)
}

pub open spec fn spec_ev_s17(e: StorageTriggerEvent) -> Seq<char> {
    spec_detections_json(e.detections@) + spec_ev_s18(e)
}

pub open spec fn spec_ev_s18(e: StorageTriggerEvent) -> Seq<char> {
    "],\"trigger_type\":"@ + spec_ev_s19(e)
}

pub open spec fn spec_ev_s19(e: StorageTriggerEvent) -> Seq<char> {
    spec_quote(e.trigger_type.spec_name()) + spec_ev_s20(e)
}

pub open spec fn spec_ev_s20(e: StorageTriggerEvent) -> Seq<char> {
    ",\"metadata\":"@ + spec_ev_s21(e)
}

pub open spec fn spec_ev_s21(e: StorageTriggerEvent) -> Seq<char> {
    spec_meta(e.metadata) + spec_ev_s22(e)
}

pub open spec fn spec_ev_s22(e: StorageTriggerEvent) -> Seq<char> {
    seq!['}']
}

/// The rendered event reads as the right-associated chain of its
/// pieces.
#[verifier::spinoff_prover]
proof fn lemma_event_shape(e: StorageTriggerEvent)
    ensures
        spec_encode_event(e) == "{\"event_id\":"@ + spec_ev_s1(e),
{
    let e0 = "{\"event_id\":"@;
    let e1 = spec_quote(e.event_id@);
    let e2 = ",\"device_id\":"@;
    let e3 = spec_quote(e.device_id@);
    let e4 = ",\"timestamp\":"@;
    let e5 = spec_quote(e.timestamp.spec_rfc3339());
    let e6 = ",\"frame_number\":"@;
    let e7 = spec_u64_dec(e.frame_number as int);
    let e8 = ",\"frame_data\":"@;
    let e9 = spec_quote(spec_b64(e.frame_data@));
    let e10 = ",\"width\":"@;
    let e11 = spec_u64_dec(e.width as int);
    let e12 = ",\"height\":"@;
    let e13 = spec_u64_dec(e.height as int);
    let e14 = ",\"format\":"@;
    let e15 = spec_quote(e.format@);
    let e16 = ",\"detections\":["@;
    let e17 = spec_detections_json(e.detections@);
    let e18 = "],\"trigger_type\":"@;
    let e19 = spec_quote(e.trigger_type.spec_name());
    let e20 = ",\"metadata\":"@;
    let e21 = spec_meta(e.metadata);
    let e22 = seq!['}'];
    assert(spec_encode_event(e) == e0 + e1 + e2 + e3 + e4 + e5 + e6 + e7 + e8 + e9 + e10 + e11 + e12 + e13 + e14 + e15 + e16 + e17 + e18 + e19 + e20 + e21 + e22);
    let s22 = e22;
    let s21 = e21 + s22;
    lemma_assoc(e0 + e1 + e2 + e3 + e4 + e5 + e6 + e7 + e8 + e9 + e10 + e11 + e12 + e13 + e14 + e15 + e16 + e17 + e18 + e19 + e20, e21, s22);
    let s20 = e20 + s21;
    lemma_assoc(e0 + e1 + e2 + e3 + e4 + e5 + e6 + e7 + e8 + e9 + e10 + e11 + e12 + e13 + e14 + e15 + e16 + e17 + e18 + e19, e20, s21);
    let s19 = e19 + s20;
    lemma_assoc(e0 + e1 + e2 + e3 + e4 + e5 + e6 + e7 + e8 + e9 + e10 + e11 + e12 + e13 + e14 + e15 + e16 + e17 + e18, e19, s20);
    let s18 = e18 + s19;
    lemma_assoc(e0 + e1 + e2 + e3 + e4 + e5 + e6 + e7 + e8 + e9 + e10 + e11 + e12 + e13 + e14 + e15 + e16 + e17, e18, s19);
    let s17 = e17 + s18;
    lemma_assoc(e0 + e1 + e2 + e3 + e4 + e5 + e6 + e7 + e8 + e9 + e10 + e11 + e12 + e13 + e14 + e15 + e16, e17, s18);
    let s16 = e16 + s17;
    lemma_assoc(e0 + e1 + e2 + e3 + e4 + e5 + e6 + e7 + e8 + e9 + e10 + e11 + e12 + e13 + e14 + e15, e16, s17);
    let s15 = e15 + s16;
    lemma_assoc(e0 + e1 + e2 + e3 + e4 + e5 + e6 + e7 + e8 + e9 + e10 + e11 + e12 + e13 + e14, e15, s16);
    let s14 = e14 + s15;
    lemma_assoc(e0 + e1 + e2 + e3 + e4 + e5 + e6 + e7 + e8 + e9 + e10 + e11 + e12 + e13, e14, s15);
    let s13 = e13 + s14;
    lemma_assoc(e0 + e1 + e2 + e3 + e4 + e5 + e6 + e7 + e8 + e9 + e10 + e11 + e12, e13, s14);
    let s12 = e12 + s13;
    lemma_assoc(e0 + e1 + e2 + e3 + e4 + e5 + e6 + e7 + e8 + e9 + e10 + e11, e12, s13);
    let s11 = e11 + s12;
    lemma_assoc(e0 + e1 + e2 + e3 + e4 + e5 + e6 + e7 + e8 + e9 + e10, e11, s12);
    let s10 = e10 + s11;
    lemma_assoc(e0 + e1 + e2 + e3 + e4 + e5 + e6 + e7 + e8 + e9, e10, s11);
    let s9 = e9 + s10;
    lemma_assoc(e0 + e1 + e2 + e3 + e4 + e5 + e6 + e7 + e8, e9, s10);
    let s8 = e8 + s9;
    lemma_assoc(e0 + e1 + e2 + e3 + e4 + e5 + e6 + e7, e8, s9);
    let s7 = e7 + s8;
    lemma_assoc(e0 + e1 + e2 + e3 + e4 + e5 + e6, e7, s8);
    let s6 = e6 + s7;
    lemma_assoc(e0 + e1 + e2 + e3 + e4 + e5, e6, s7);
    let s5 = e5 + s6;
    lemma_assoc(e0 + e1 + e2 + e3 + e4, e5, s6);
    let s4 = e4 + s5;
    lemma_assoc(e0 + e1 + e2 + e3, e4, s5);
    let s3 = e3 + s4;
    lemma_assoc(e0 + e1 + e2, e3, s4);
    let s2 = e2 + s3;
    lemma_assoc(e0 + e1, e2, s3);
    let s1 = e1 + s2;
    lemma_assoc(e0, e1, s2);
    assert(s1 == spec_ev_s1(e));
}


/// The trigger kind named by its wire name.
pub open spec fn spec_trigger_of(name: Seq<char>) -> Option<TriggerType> {
    if name == "detection"@ {
        Some(TriggerType::Detection)
    } else if name == "sample"@ {
        Some(TriggerType::Sample)
    } else if name == "debug"@ {
        Some(TriggerType::Debug)
    } else if name == "manual"@ {
        Some(TriggerType::Manual)
    } else if name == "alert"@ {
        Some(TriggerType::Alert)
    } else {
        None
    }
}

/// Each trigger kind's wire name reads back as that kind.
proof fn lemma_trigger_of(t: TriggerType)
    ensures
        spec_trigger_of(t.spec_name()) == Some(t),
{
    reveal_strlit("detection");
    reveal_strlit("sample");
    reveal_strlit("debug");
    reveal_strlit("manual");
    reveal_strlit("alert");
    match t {
        TriggerType::Detection => {
        },
        TriggerType::Sample => {
            assert("sample"@.len() != "detection"@.len());
        },
        TriggerType::Debug => {
            assert("debug"@.len() != "detection"@.len());
            assert("debug"@.len() != "sample"@.len());
        },
        TriggerType::Manual => {
            assert("manual"@.len() != "detection"@.len());
            assert("manual"@[0] != "sample"@[0]);
            assert("manual"@ != "sample"@);
            assert("manual"@.len() != "debug"@.len());
        },
        TriggerType::Alert => {
            assert("alert"@.len() != "detection"@.len());
            assert("alert"@.len() != "sample"@.len());
            assert("alert"@[0] != "debug"@[0]);
            assert("alert"@ != "debug"@);
            assert("alert"@.len() != "manual"@.len());
        },
    }
}

/// A non-empty detection array rendering opens with a brace.
proof fn lemma_detections_first(v: Seq<Detection>)
    requires
        v.len() >= 1,
    ensures
        spec_detections_json(v).len() > 0 && spec_detections_json(v)[0] == '{',
    decreases v.len(),
{
    reveal_strlit("{\"detection_type\":");
    if v.len() == 1 {
        assert(spec_detections_json(v)[0] == spec_detection_json(v[0])[0]);
        assert(spec_detection_json(v[0])[0] == "{\"detection_type\":"@[0]);
    } else {
        lemma_detections_first(v.drop_last());
        assert(spec_detections_json(v)[0] == spec_detections_json(v.drop_last())[0]);
    }
}

/// The characters and values of every field of an event.
pub open spec fn spec_event_view(e: StorageTriggerEvent) -> (
    Seq<char>,
    Seq<char>,
    UtcDateTime,
    int,
    Seq<u8>,
    int,
    int,
    Seq<char>,
    Seq<(Seq<char>, int, int, int, int, int, Option<Seq<(Seq<char>, Seq<char>)>>)>,
    TriggerType,
    Option<Seq<(Seq<char>, Seq<char>)>>,
) {
    (
        e.event_id@,
        e.device_id@,
        e.timestamp,
        e.frame_number as int,
        e.frame_data@,
        e.width as int,
        e.height as int,
        e.format@,
        spec_dets_view(e.detections@),
        e.trigger_type,
        spec_meta_view(e.metadata),
    )
}

/// What a canonical event text denotes: every field of the event it
/// renders, or nothing where the text is not such a rendering (or where
/// a field is out of the event's ranges: the id not UUID-shaped, or a
/// number past its width).
pub open spec fn spec_decode_event_text(s: Seq<char>) -> Option<
    (
        Seq<char>,
        Seq<char>,
        UtcDateTime,
        int,
        Seq<u8>,
        int,
        int,
        Seq<char>,
        Seq<(Seq<char>, int, int, int, int, int, Option<Seq<(Seq<char>, Seq<char>)>>)>,
        TriggerType,
        Option<Seq<(Seq<char>, Seq<char>)>>,
    ),
> {
    match spec_eat(s, "{\"event_id\":"@) {
        None => None,
        Some(r0) => match spec_eat_str(r0) {
            None => None,
            Some((event_id, r1)) => match spec_eat(r1, ",\"device_id\":"@) {
                None => None,
                Some(r2) => match spec_eat_str(r2) {
                    None => None,
                    Some((device_id, r3)) => match spec_eat(r3, ",\"timestamp\":"@) {
                        None => None,
                        Some(r4) => match spec_eat_str(r4) {
                            None => None,
                            Some((ts_text, r5)) => match spec_parse_rfc3339(ts_text) {
                                None => None,
                                Some(timestamp) => match spec_eat(r5, ",\"frame_number\":"@) {
                                    None => None,
                                    Some(r6) => match spec_eat_num(r6) {
                                        None => None,
                                        Some((frame_number, r7)) => match spec_eat(
                                            r7,
                                            ",\"frame_data\":"@,
                                        ) {
                                            None => None,
                                            Some(r8) => match spec_eat_str(r8) {
                                                None => None,
                                                Some((b64_text, r9)) => match spec_b64_decode(
                                                    b64_text,
                                                ) {
                                                    None => None,
                                                    Some(frame_data) => if spec_is_uuid_text(
                                                        event_id,
                                                    ) && frame_number <= u64::MAX {
                                                        spec_decode_event_rest(
                                                            r9,
                                                            event_id,
                                                            device_id,
                                                            timestamp,
                                                            frame_number,
                                                            frame_data,
                                                        )
                                                    } else {
                                                        None
                                                    },
                                                },
                                            },
                                        },
                                    },
                                },
                            },
                        },
                    },
                },
            },
        },
    }
}

/// The second half of the canonical reading, from the width field on.
pub open spec fn spec_decode_event_rest(
    s: Seq<char>,
    event_id: Seq<char>,
    device_id: Seq<char>,
    timestamp: UtcDateTime,
    frame_number: int,
    frame_data: Seq<u8>,
) -> Option<
    (
        Seq<char>,
        Seq<char>,
        UtcDateTime,
        int,
        Seq<u8>,
        int,
        int,
        Seq<char>,
        Seq<(Seq<char>, int, int, int, int, int, Option<Seq<(Seq<char>, Seq<char>)>>)>,
        TriggerType,
        Option<Seq<(Seq<char>, Seq<char>)>>,
    ),
> {
    match spec_eat(s, ",\"width\":"@) {
        None => None,
        Some(r10) => match spec_eat_num(r10) {
            None => None,
            Some((width, r11)) => match spec_eat(r11, ",\"height\":"@) {
                None => None,
                Some(r12) => match spec_eat_num(r12) {
                    None => None,
                    Some((height, r13)) => match spec_eat(r13, ",\"format\":"@) {
                        None => None,
                        Some(r14) => match spec_eat_str(r14) {
                            None => None,
                            Some((format, r15)) => match spec_eat(r15, ",\"detections\":["@) {
                                None => None,
                                Some(r16) => {
                                    let dets_res = if r16.len() > 0 && r16[0] == ']' {
                                        Some(
                                            (
                                                Seq::<
                                                    (
                                                        Seq<char>,
                                                        int,
                                                        int,
                                                        int,
                                                        int,
                                                        int,
                                                        Option<Seq<(Seq<char>, Seq<char>)>>,
                                                    ),
                                                >::empty(),
                                                r16,
                                            ),
                                        )
                                    } else {
                                        spec_eat_detections(r16)
                                    };
                                    match dets_res {
                                        None => None,
                                        Some((dets, r17)) => match spec_eat(
                                            r17,
                                            "],\"trigger_type\":"@,
                                        ) {
                                            None => None,
                                            Some(r18) => match spec_eat_str(r18) {
                                                None => None,
                                                Some((trig_text, r19)) => match spec_trigger_of(
                                                    trig_text,
                                                ) {
                                                    None => None,
                                                    Some(trigger) => match spec_eat(
                                                        r19,
                                                        ",\"metadata\":"@,
                                                    ) {
                                                        None => None,
                                                        Some(r20) => match spec_eat_meta(r20) {
                                                            None => None,
                                                            Some((meta, r21)) => match spec_eat(
                                                                r21,
                                                                seq!['}'],
                                                            ) {
                                                                None => None,
                                                                Some(r22) => if r22.len() == 0
                                                                    && width <= u32::MAX && height
                                                                    <= u32::MAX {
                                                                    Some(
                                                                        (
                                                                            event_id,
                                                                            device_id,
                                                                            timestamp,
                                                                            frame_number,
                                                                            frame_data,
                                                                            width,
                                                                            height,
                                                                            format,
                                                                            dets,
                                                                            trigger,
                                                                            meta,
                                                                        ),
                                                                    )
                                                                } else {
                                                                    None
                                                                },
                                                            },
                                                        },
                                                    },
                                                },
                                            },
                                        },
                                    }
                                },
                            },
                        },
                    },
                },
            },
        },
    }
}

/// Wire round trip: the canonical reading of the rendering of any
/// well-formed event gives every field back.  The encoder's contract
/// says its output is exactly `spec_encode_event`, so this law covers
/// the bytes the library actually sends.
#[verifier::rlimit(100)]
#[verifier::spinoff_prover]
pub proof fn lemma_event_round_trip(e: StorageTriggerEvent)
    requires
        e.wf(),
    ensures
        spec_decode_event_text(spec_encode_event(e)) == Some(spec_event_view(e)),
{
    reveal_strlit(",\"device_id\":");
    reveal_strlit(",\"timestamp\":");
    reveal_strlit(",\"frame_number\":");
    reveal_strlit(",\"frame_data\":");
    reveal_strlit(",\"width\":");
    reveal_strlit(",\"height\":");
    reveal_strlit(",\"format\":");
    reveal_strlit(",\"detections\":[");
    reveal_strlit("],\"trigger_type\":");
    reveal_strlit(",\"metadata\":");
    lemma_event_shape(e);
    lemma_eat_tok("{\"event_id\":"@, spec_ev_s1(e));
    lemma_eat_str(e.event_id@, spec_ev_s2(e));
    lemma_eat_tok(",\"device_id\":"@, spec_ev_s3(e));
    lemma_eat_str(e.device_id@, spec_ev_s4(e));
    lemma_eat_tok(",\"timestamp\":"@, spec_ev_s5(e));
    lemma_eat_str(e.timestamp.spec_rfc3339(), spec_ev_s6(e));
    lemma_rfc3339_round_trip(e.timestamp);
    lemma_eat_tok(",\"frame_number\":"@, spec_ev_s7(e));
    assert(spec_ev_s8(e)[0] == ',');
    assert(spec_digit_val(spec_ev_s8(e)[0]) < 0);
    lemma_eat_num(e.frame_number as int, spec_ev_s8(e));
    lemma_eat_tok(",\"frame_data\":"@, spec_ev_s9(e));
    lemma_eat_str(spec_b64(e.frame_data@), spec_ev_s10(e));
    lemma_b64_round_trip(e.frame_data@);
    lemma_event_round_trip_rest(e);
}

/// The second half of the round trip, from the width field on.
#[verifier::rlimit(100)]
#[verifier::spinoff_prover]
proof fn lemma_event_round_trip_rest(e: StorageTriggerEvent)
    requires
        e.wf(),
    ensures
        spec_decode_event_rest(
            spec_ev_s10(e),
            e.event_id@,
            e.device_id@,
            e.timestamp,
            e.frame_number as int,
            e.frame_data@,
        ) == Some(spec_event_view(e)),
{
    reveal_strlit(",\"width\":");
    reveal_strlit(",\"height\":");
    reveal_strlit(",\"format\":");
    reveal_strlit(",\"detections\":[");
    reveal_strlit("],\"trigger_type\":");
    reveal_strlit(",\"metadata\":");
    lemma_eat_tok(",\"width\":"@, spec_ev_s11(e));
    assert(spec_ev_s12(e)[0] == ',');
    assert(spec_digit_val(spec_ev_s12(e)[0]) < 0);
    lemma_eat_num(e.width as int, spec_ev_s12(e));
    lemma_eat_tok(",\"height\":"@, spec_ev_s13(e));
    assert(spec_ev_s14(e)[0] == ',');
    assert(spec_digit_val(spec_ev_s14(e)[0]) < 0);
    lemma_eat_num(e.height as int, spec_ev_s14(e));
    lemma_eat_tok(",\"format\":"@, spec_ev_s15(e));
    lemma_eat_str(e.format@, spec_ev_s16(e));
    lemma_eat_tok(",\"detections\":["@, spec_ev_s17(e));
    assert(spec_ev_s18(e)[0] == ']');
    if e.detections@.len() == 0 {
        assert(spec_detections_json(e.detections@) =~= Seq::<char>::empty());
        assert(spec_ev_s17(e) =~= spec_ev_s18(e));
        assert(spec_ev_s17(e)[0] == ']');
        assert(spec_dets_view(e.detections@) =~= Seq::<
            (Seq<char>, int, int, int, int, int, Option<Seq<(Seq<char>, Seq<char>)>>),
        >::empty());
    } else {
        lemma_detections_first(e.detections@);
        assert(spec_ev_s17(e)[0] == '{');
        lemma_eat_detections(e.detections@, spec_ev_s18(e));
    }
    lemma_eat_tok("],\"trigger_type\":"@, spec_ev_s19(e));
    lemma_eat_str(e.trigger_type.spec_name(), spec_ev_s20(e));
    lemma_trigger_of(e.trigger_type);
    lemma_eat_tok(",\"metadata\":"@, spec_ev_s21(e));
    lemma_eat_meta(e.metadata, spec_ev_s22(e));
    assert(spec_ev_s22(e) =~= seq!['}'] + Seq::<char>::empty());
    lemma_eat_tok(seq!['}'], Seq::<char>::empty());
}


/// The canonical executable reading: these functions compute exactly
/// what the spec readers denote, position for position, so the decoder's
/// contract can speak of `spec_decode_event_text` directly.
///
/// Skipping distributes over itself.
proof fn lemma_skip_skip(s: Seq<char>, a: int, b: int)
    requires
        0 <= a,
        0 <= b,
        a + b <= s.len(),
    ensures
        s.skip(a).skip(b) == s.skip(a + b),
{
    assert(s.skip(a).skip(b) =~= s.skip(a + b));
}

/// A suffix's window is the window at the shifted position.
proof fn lemma_skip_subrange(s: Seq<char>, p: int, a: int, b: int)
    requires
        0 <= p <= s.len(),
        0 <= a <= b,
        p + b <= s.len(),
    ensures
        s.skip(p).subrange(a, b) == s.subrange(p + a, p + b),
{
    assert(s.skip(p).subrange(a, b) =~= s.subrange(p + a, p + b));
}

/// Consume an exact token, computing what `spec_eat` denotes there.
fn c_eat_tok(s: &str, len: usize, pos: usize, tok: &str) -> (r: Option<usize>)
    requires
        len == s@.len(),
        pos <= len,
    ensures
        match spec_eat(s@.skip(pos as int), tok@) {
            Some(rest) => r matches Some(p2) && pos <= p2 <= len && p2 == pos + tok@.len()
                && s@.skip(p2 as int) == rest,
            None => r is None,
        },
{
    let tlen = tok.unicode_len();
    if len - pos < tlen {
        proof {
            assert(s@.skip(pos as int).len() == len - pos);
        }
        return None;
    }
    let mut i: usize = 0;
    while i < tlen
        invariant
            i <= tlen,
            tlen == tok@.len(),
            pos + tlen <= len,
            len == s@.len(),
            forall|j: int| 0 <= j < i ==> s@[pos + j] == tok@[j],
        decreases tlen - i,
    {
        if s.get_char(pos + i) != tok.get_char(i) {
            proof {
                let suf = s@.skip(pos as int);
                assert(suf.subrange(0, tlen as int)[i as int] == s@[pos + i]);
                assert(suf.subrange(0, tlen as int) != tok@);
            }
            return None;
        }
        i = i + 1;
    }
    proof {
        let suf = s@.skip(pos as int);
        assert(suf.subrange(0, tlen as int) =~= tok@);
        lemma_skip_skip(s@, pos as int, tlen as int);
    }
    Some(pos + tlen)
}

/// First double quote at or after `pos`, as `spec_find_quote` counts it.
fn c_scan_quote(s: &str, len: usize, pos: usize) -> (r: usize)
    requires
        len == s@.len(),
        pos <= len,
    ensures
        pos <= r <= len,
        r - pos == spec_find_quote(s@.skip(pos as int)),
        r < len ==> s@[r as int] == '"',
{
    let mut i = pos;
    while i < len
        invariant
            pos <= i <= len,
            len == s@.len(),
            spec_find_quote(s@.skip(pos as int)) == i - pos + spec_find_quote(s@.skip(i as int)),
        decreases len - i,
    {
        if s.get_char(i) == '"' {
            proof {
                assert(s@.skip(i as int)[0] == '"');
            }
            return i;
        }
        proof {
            let suf = s@.skip(i as int);
            assert(suf[0] != '"');
            assert(suf.drop_first() =~= s@.skip(i + 1int));
        }
        i = i + 1;
    }
    proof {
        assert(s@.skip(len as int) =~= Seq::<char>::empty());
    }
    i
}

/// Unescape the string-literal body `s[from..to]`, computing what
/// `spec_unescape` denotes on it.
fn c_unescape(s: &str, len: usize, from: usize, to: usize) -> (r: Option<String>)
    requires
        len == s@.len(),
        from <= to <= len,
    ensures
        match spec_unescape(s@.subrange(from as int, to as int)) {
            Some(u) => r matches Some(v) && v@ == u,
            None => r is None,
        },
{
    let mut out = String::new();
    let mut cur = from;
    proof {
        assert(s@.subrange(from as int, to as int) =~= s@.subrange(cur as int, to as int));
        if spec_unescape(s@.subrange(from as int, to as int)) is Some {
            assert(Seq::<char>::empty() + spec_unescape(
                s@.subrange(from as int, to as int),
            ).unwrap() =~= spec_unescape(s@.subrange(from as int, to as int)).unwrap());
        }
    }
    loop
        invariant
            from <= cur <= to <= len,
            len == s@.len(),
            spec_unescape(s@.subrange(from as int, to as int)) == match spec_unescape(
                s@.subrange(cur as int, to as int),
            ) {
                Some(rest) => Some(out@ + rest),
                None => None::<Seq<char>>,
            },
        decreases to - cur,
    {
        if cur == to {
            proof {
                assert(s@.subrange(cur as int, to as int) =~= Seq::<char>::empty());
                assert(out@ + Seq::<char>::empty() =~= out@);
            }
            return Some(out);
        }
        let ghost w = s@.subrange(cur as int, to as int);
        let c = s.get_char(cur);
        proof {
            assert(w[0] == c);
        }
        if c == '"' {
            return None;
        } else if c != '\\' {
            let ghost out0 = out@;
            push_char(&mut out, c);
            proof {
                assert(w.skip(1) =~= s@.subrange(cur + 1int, to as int));
                if spec_unescape(s@.subrange(cur + 1int, to as int)) is Some {
                    let rest = spec_unescape(s@.subrange(cur + 1int, to as int)).unwrap();
                    assert(spec_unescape(w) == Some(seq![c] + rest));
                    assert(out0 + (seq![c] + rest) =~= out@ + rest);
                }
            }
            cur = cur + 1;
        } else {
            if to - cur < 2 {
                proof {
                    assert(w.len() < 2);
                }
                return None;
            }
            let e = s.get_char(cur + 1);
            proof {
                assert(w[1] == e);
            }
            if e == 'n' || e == 't' || e == 'r' || e == '"' || e == '\\' || e == '/' || e == 'b'
                || e == 'f' {
                let ch: char = if e == 'n' {
                    '\n'
                } else if e == 't' {
                    '\t'
                } else if e == 'r' {
                    '\r'
                } else if e == 'b' {
                    (8u8 as char)
                } else if e == 'f' {
                    (12u8 as char)
                } else {
                    e
                };
                let ghost out0 = out@;
                push_char(&mut out, ch);
                proof {
                    assert(w.skip(2) =~= s@.subrange(cur + 2int, to as int));
                    if spec_unescape(s@.subrange(cur + 2int, to as int)) is Some {
                        let rest = spec_unescape(s@.subrange(cur + 2int, to as int)).unwrap();
                        assert(spec_unescape(w) == Some(seq![ch] + rest));
                        assert(out0 + (seq![ch] + rest) =~= out@ + rest);
                    }
                }
                cur = cur + 2;
            } else if e == 'u' {
                if to - cur < 6 {
                    proof {
                        assert(w.len() < 6);
                    }
                    return None;
                }
                let h0 = hex_val(s.get_char(cur + 2));
                let h1 = hex_val(s.get_char(cur + 3));
                let h2 = hex_val(s.get_char(cur + 4));
                let h3 = hex_val(s.get_char(cur + 5));
                proof {
                    assert(w[2] == s@[cur + 2int]);
                    assert(w[3] == s@[cur + 3int]);
                    assert(w[4] == s@[cur + 4int]);
                    assert(w[5] == s@[cur + 5int]);
                }
                if h0 < 0 || h1 < 0 || h2 < 0 || h3 < 0 {
                    return None;
                }
                let code: u32 = ((h0 as u32 * 16 + h1 as u32) * 16 + h2 as u32) * 16 + h3 as u32;
                proof {
                    assert(code == spec_code_of(w));
                }
                if code >= 0xD800 {
                    return None;
                }
                let ch = match char_from_u32(code) {
                    Some(ch) => ch,
                    None => {
                        proof {
                            assert(false);
                        }
                        return None;
                    },
                };
                proof {
                    vstd::utf8::char_u32_cast(ch, code);
                    assert(ch == spec_code_of(w) as u32 as char);
                }
                let ghost out0 = out@;
                push_char(&mut out, ch);
                proof {
                    assert(w.skip(6) =~= s@.subrange(cur + 6int, to as int));
                    if spec_unescape(s@.subrange(cur + 6int, to as int)) is Some {
                        let rest = spec_unescape(s@.subrange(cur + 6int, to as int)).unwrap();
                        assert(spec_unescape(w) == Some(seq![ch] + rest));
                        assert(out0 + (seq![ch] + rest) =~= out@ + rest);
                    }
                }
                cur = cur + 6;
            } else {
                return None;
            }
        }
    }
}

/// Consume a string literal, computing what `spec_eat_str` denotes there.
fn c_eat_str(s: &str, len: usize, pos: usize) -> (r: Option<(String, usize)>)
    requires
        len == s@.len(),
        pos <= len,
    ensures
        match spec_eat_str(s@.skip(pos as int)) {
            Some((body, rest)) => r matches Some(v) && v.0@ == body && pos < v.1 <= len && s@.skip(
                v.1 as int,
            ) == rest,
            None => r is None,
        },
{
    let ghost suf = s@.skip(pos as int);
    if pos >= len || s.get_char(pos) != '"' {
        proof {
            if pos < len {
                assert(suf[0] != '"');
            } else {
                assert(suf.len() == 0);
            }
        }
        return None;
    }
    proof {
        assert(suf[0] == '"');
        assert(suf.skip(1) =~= s@.skip(pos + 1int));
    }
    let q_abs = c_scan_quote(s, len, pos + 1);
    proof {
        assert(spec_find_quote(suf.skip(1)) == q_abs - (pos + 1));
        assert(suf.len() == len - pos);
    }
    if q_abs >= len {
        proof {
            assert(1 + spec_find_quote(suf.skip(1)) >= suf.len());
        }
        return None;
    }
    proof {
        assert(1 + spec_find_quote(suf.skip(1)) < suf.len());
        lemma_skip_subrange(s@, pos as int, 1, (q_abs - pos) as int);
        assert(suf.subrange(1, 1 + spec_find_quote(suf.skip(1))) == s@.subrange(
            pos + 1int,
            q_abs as int,
        ));
    }
    match c_unescape(s, len, pos + 1, q_abs) {
        Some(body) => {
            proof {
                lemma_skip_skip(s@, pos as int, (q_abs + 1 - pos) as int);
                assert(suf.skip(2 + spec_find_quote(suf.skip(1))) == s@.skip(q_abs + 1int));
            }
            Some((body, q_abs + 1))
        },
        None => None,
    }
}

/// Length of the leading digit run at `pos`, as `spec_digit_run` counts
/// it.
fn c_scan_digits(s: &str, len: usize, pos: usize) -> (r: usize)
    requires
        len == s@.len(),
        pos <= len,
    ensures
        pos <= r <= len,
        r - pos == spec_digit_run(s@.skip(pos as int)),
{
    let mut i = pos;
    while i < len
        invariant
            pos <= i <= len,
            len == s@.len(),
            spec_digit_run(s@.skip(pos as int)) == i - pos + spec_digit_run(s@.skip(i as int)),
        decreases len - i,
    {
        if digit_val(s.get_char(i)) < 0 {
            proof {
                assert(s@.skip(i as int)[0] == s@[i as int]);
            }
            return i;
        }
        proof {
            let w = s@.skip(i as int);
            assert(w[0] == s@[i as int]);
            assert(spec_digit_val(w[0]) >= 0);
            assert(w.drop_first() =~= s@.skip(i + 1int));
        }
        i = i + 1;
    }
    proof {
        assert(s@.skip(len as int) =~= Seq::<char>::empty());
    }
    i
}

/// A digit run stays inside its text, and every character of it is a
/// digit.
proof fn lemma_run_digits(w: Seq<char>)
    ensures
        0 <= spec_digit_run(w) <= w.len(),
        forall|i: int| 0 <= i < spec_digit_run(w) ==> spec_digit_val(#[trigger] w[i]) >= 0,
    decreases w.len(),
{
    if w.len() > 0 && spec_digit_val(w[0]) >= 0 {
        lemma_run_digits(w.drop_first());
        assert forall|i: int| 0 <= i < spec_digit_run(w) implies spec_digit_val(
            #[trigger] w[i],
        ) >= 0 by {
            if i > 0 {
                assert(w.drop_first()[i - 1] == w[i]);
            }
        }
    }
}

/// Consume a decimal number, computing what `spec_eat_num` denotes there.
fn c_eat_num(s: &str, len: usize, pos: usize) -> (r: Option<(u128, usize)>)
    requires
        len == s@.len(),
        pos <= len,
    ensures
        match spec_eat_num(s@.skip(pos as int)) {
            Some((v, rest)) => r matches Some(x) && x.0 == v && pos < x.1 <= len && s@.skip(
                x.1 as int,
            ) == rest,
            None => r is None,
        },
{
    let ghost suf = s@.skip(pos as int);
    let k_abs = c_scan_digits(s, len, pos);
    let k = k_abs - pos;
    if k == 0 || k > 20 {
        return None;
    }
    proof {
        crate::strutil::lemma_pow10_small();
        lemma_run_digits(suf);
        lemma_skip_subrange(s@, pos as int, 0, k as int);
        assert(suf.take(k as int) == s@.subrange(pos as int, k_abs as int));
        assert forall|j: int| pos <= j < k_abs implies spec_digit_val(#[trigger] s@[j]) >= 0 by {
            assert(suf[j - pos] == s@[j]);
        }
    }
    let mut acc: u128 = 0;
    let mut j = pos;
    while j < k_abs
        invariant
            pos <= j <= k_abs <= len,
            len == s@.len(),
            k_abs - pos <= 20,
            acc == spec_seq_val(s@.subrange(pos as int, j as int)),
            acc < crate::strutil::pow10((j - pos) as nat),
            forall|i: int| pos <= i < k_abs ==> spec_digit_val(#[trigger] s@[i]) >= 0,
        decreases k_abs - j,
    {
        let d = digit_val(s.get_char(j));
        proof {
            crate::strutil::lemma_pow10_20();
            crate::strutil::lemma_pow10_mono((j - pos + 1) as nat, 20);
            let sub2 = s@.subrange(pos as int, j + 1int);
            assert(sub2.drop_last() =~= s@.subrange(pos as int, j as int));
            assert(sub2.last() == s@[j as int]);
            assert(d >= 0);
        }
        acc = acc * 10 + d as u128;
        j = j + 1;
    }
    proof {
        lemma_skip_skip(s@, pos as int, k as int);
        assert(suf.skip(k as int) == s@.skip(k_abs as int));
    }
    Some((acc, k_abs))
}

/// Consume a thousandths value, computing what `spec_eat_milli` denotes
/// there.
fn c_eat_milli(s: &str, len: usize, pos: usize) -> (r: Option<(u128, usize)>)
    requires
        len == s@.len(),
        pos <= len,
    ensures
        match spec_eat_milli(s@.skip(pos as int)) {
            Some((m, rest)) => r matches Some(x) && x.0 == m && pos < x.1 <= len && s@.skip(
                x.1 as int,
            ) == rest,
            None => r is None,
        },
{
    let ghost suf = s@.skip(pos as int);
    let (whole, p) = match c_eat_num(s, len, pos) {
        Some(v) => v,
        None => {
            return None;
        },
    };
    proof {
        crate::strutil::lemma_pow10_20();
        crate::strutil::lemma_pow10_small();
        let k = spec_digit_run(suf);
        lemma_run_digits(suf);
        assert forall|i: int| 0 <= i < suf.take(k).len() implies spec_digit_val(
            #[trigger] suf.take(k)[i],
        ) >= 0 by {
            assert(suf.take(k)[i] == suf[i]);
        }
        crate::strutil::lemma_seq_val_bound(suf.take(k));
        crate::strutil::lemma_pow10_mono(suf.take(k).len() as nat, 20);
        assert(whole < crate::strutil::pow10(20));
    }
    if p < len && s.get_char(p) == '.' {
        proof {
            assert(s@.skip(p as int)[0] == '.');
            assert(s@.skip(p as int).skip(1) =~= s@.skip(p + 1int));
        }
        let ghost frac = s@.skip(p + 1int);
        let k2_abs = c_scan_digits(s, len, p + 1);
        let k2 = k2_abs - (p + 1);
        if k2 == 0 {
            return None;
        }
        proof {
            lemma_run_digits(frac);
            assert forall|j: int| p + 1 <= j < k2_abs implies spec_digit_val(
                #[trigger] s@[j],
            ) >= 0 by {
                assert(frac[j - (p + 1)] == s@[j]);
            }
        }
        let take3 = if k2 >= 3 {
            3
        } else {
            k2
        };
        let mut v2: u128 = 0;
        let mut j = p + 1;
        while j < p + 1 + take3
            invariant
                p + 1 <= j <= p + 1 + take3,
                take3 <= 3,
                p + 1 + take3 <= k2_abs <= len,
                len == s@.len(),
                v2 == spec_seq_val(s@.subrange(p + 1int, j as int)),
                v2 < crate::strutil::pow10((j - (p + 1)) as nat),
                forall|i: int| p + 1 <= i < k2_abs ==> spec_digit_val(#[trigger] s@[i]) >= 0,
            decreases p + 1 + take3 - j,
        {
            let d = digit_val(s.get_char(j));
            proof {
                crate::strutil::lemma_pow10_small();
                let sub2 = s@.subrange(p + 1int, j + 1int);
                assert(sub2.drop_last() =~= s@.subrange(p + 1int, j as int));
                assert(sub2.last() == s@[j as int]);
                assert(d >= 0);
            }
            v2 = v2 * 10 + d as u128;
            j = j + 1;
        }
        let scale: u128 = if k2 >= 3 {
            1
        } else if k2 == 2 {
            10
        } else {
            100
        };
        proof {
            crate::strutil::lemma_pow10_small();
            let k2s = spec_digit_run(frac);
            assert(k2s == k2);
            lemma_skip_subrange(s@, p + 1int, 0, take3 as int);
            assert(frac.take(if k2s >= 3 {
                3int
            } else {
                k2s
            }) == s@.subrange(p + 1int, (p + 1 + take3) as int));
            lemma_skip_skip(s@, p + 1int, k2 as int);
            assert(frac.skip(k2s) == s@.skip(k2_abs as int));
            assert(whole * 1000 + v2 * scale < 0x100000000000000000000000000000000)
                by (nonlinear_arith)
                requires
                    whole < 100000000000000000000,
                    v2 < 1000,
                    1 <= scale <= 100,
            ;
        }
        let m: u128 = whole * 1000 + v2 * scale;
        Some((m, k2_abs))
    } else {
        proof {
            if p < len {
                assert(s@.skip(p as int)[0] == s@[p as int]);
            } else {
                assert(s@.skip(p as int).len() == 0);
            }
            assert(whole * 1000 < 0x100000000000000000000000000000000) by (nonlinear_arith)
                requires
                    whole < 100000000000000000000,
            ;
        }
        Some((whole * 1000, p))
    }
}

/// Consume a string-map value, computing what `spec_eat_meta` denotes
/// there.
#[verifier::rlimit(100)]
fn c_eat_meta(s: &str, len: usize, pos: usize) -> (r: Option<
    (Option<Vec<(String, String)>>, usize),
>)
    requires
        len == s@.len(),
        pos <= len,
    ensures
        match spec_eat_meta(s@.skip(pos as int)) {
            Some((mv, rest)) => r matches Some(v) && spec_meta_view(v.0) == mv && pos <= v.1
                <= len && s@.skip(v.1 as int) == rest,
            None => r is None,
        },
{
    let ghost suf = s@.skip(pos as int);
    proof {
        reveal_strlit("null");
    }
    match c_eat_tok(s, len, pos, "null") {
        Some(p2) => {
            proof {
                assert(suf.len() >= 4 && suf.subrange(0, 4) == "null"@);
            }
            return Some((None, p2));
        },
        None => {},
    }
    proof {
        assert(!(suf.len() >= 4 && suf.subrange(0, 4) == "null"@));
    }
    if pos >= len || s.get_char(pos) != '{' {
        proof {
            if pos < len {
                assert(suf[0] != '{');
            } else {
                assert(suf.len() == 0);
            }
        }
        return None;
    }
    proof {
        assert(suf[0] == '{');
    }
    if pos + 1 < len && s.get_char(pos + 1) == '}' {
        let empty_entries: Vec<(String, String)> = Vec::new();
        proof {
            assert(suf.len() >= 2 && suf[1] == '}');
            assert(suf.skip(2) =~= s@.skip(pos + 2int));
            assert(spec_pairs_view(empty_entries@) =~= Seq::<(Seq<char>, Seq<char>)>::empty());
        }
        return Some((Some(empty_entries), pos + 2));
    }
    proof {
        assert(!(suf.len() >= 2 && suf[1] == '}'));
        assert(suf.skip(1) =~= s@.skip(pos + 1int));
    }
    let ghost start = pos + 1int;
    let mut entries: Vec<(String, String)> = Vec::new();
    let mut cur = pos + 1;
    proof {
        if spec_eat_meta_entries(s@.skip(start)) is Some {
            let pr = spec_eat_meta_entries(s@.skip(start)).unwrap();
            assert(spec_pairs_view(entries@) + pr.0 =~= pr.0);
        }
    }
    loop
        invariant
            pos + 1 <= cur <= len,
            len == s@.len(),
            start == pos + 1,
            suf == s@.skip(pos as int),
            suf.len() >= 1,
            suf[0] == '{',
            !(suf.len() >= 4 && suf.subrange(0, 4) == "null"@),
            !(suf.len() >= 2 && suf[1] == '}'),
            suf.skip(1) == s@.skip(start),
            spec_eat_meta_entries(s@.skip(start)) == match spec_eat_meta_entries(
                s@.skip(cur as int),
            ) {
                Some((more, rest)) => Some((spec_pairs_view(entries@) + more, rest)),
                None => None::<(Seq<(Seq<char>, Seq<char>)>, Seq<char>)>,
            },
        decreases len - cur,
    {
        let ghost w = s@.skip(cur as int);
        let (key, p1) = match c_eat_str(s, len, cur) {
            Some(v) => v,
            None => {
                return None;
            },
        };
        proof {
            assert(s@.skip(p1 as int).len() == len - p1);
        }
        if p1 >= len || s.get_char(p1) != ':' {
            proof {
                if p1 < len {
                    assert(s@.skip(p1 as int)[0] == s@[p1 as int]);
                }
            }
            return None;
        }
        proof {
            assert(s@.skip(p1 as int)[0] == s@[p1 as int]);
            assert(s@.skip(p1 as int).skip(1) =~= s@.skip(p1 + 1int));
        }
        let (val, p5) = match c_eat_str(s, len, p1 + 1) {
            Some(v) => v,
            None => {
                return None;
            },
        };
        let ghost old_entries = entries@;
        let ghost kv = (key@, val@);
        entries.push((key, val));
        proof {
            assert(spec_pairs_view(entries@) =~= spec_pairs_view(old_entries) + seq![kv]);
        }
        if p5 >= len {
            proof {
                assert(s@.skip(p5 as int).len() == 0);
            }
            return None;
        }
        let tch = s.get_char(p5);
        proof {
            assert(s@.skip(p5 as int)[0] == tch);
        }
        if tch == ',' {
            proof {
                assert(s@.skip(p5 as int).skip(1) =~= s@.skip(p5 + 1int));
                assert(s@.skip(p5 + 1int).len() < w.len());
                if spec_eat_meta_entries(s@.skip(p5 + 1int)) is Some {
                    let pr = spec_eat_meta_entries(s@.skip(p5 + 1int)).unwrap();
                    assert(spec_eat_meta_entries(w) == Some((seq![kv] + pr.0, pr.1)));
                    assert(spec_pairs_view(old_entries) + (seq![kv] + pr.0) =~= spec_pairs_view(
                        entries@,
                    ) + pr.0);
                } else {
                    assert(spec_eat_meta_entries(w) is None);
                }
            }
            cur = p5 + 1;
        } else if tch == '}' {
            proof {
                assert(s@.skip(p5 as int).skip(1) =~= s@.skip(p5 + 1int));
                assert(spec_eat_meta_entries(w) == Some((seq![kv], s@.skip(p5 + 1int))));
                assert(spec_pairs_view(old_entries) + seq![kv] =~= spec_pairs_view(entries@));
            }
            return Some((Some(entries), p5 + 1));
        } else {
            return None;
        }
    }
}

/// Consume a bounding box, computing what `spec_eat_bbox` denotes there.
fn c_eat_bbox(s: &str, len: usize, pos: usize) -> (r: Option<((u128, u128, u128, u128), usize)>)
    requires
        len == s@.len(),
        pos <= len,
    ensures
        match spec_eat_bbox(s@.skip(pos as int)) {
            Some((b, rest)) => r matches Some(v) && v.0.0 == b.0 && v.0.1 == b.1 && v.0.2 == b.2
                && v.0.3 == b.3 && pos < v.1 <= len && s@.skip(v.1 as int) == rest,
            None => r is None,
        },
{
    proof {
        reveal_strlit(",");
        assert(","@ =~= seq![',']);
    }
    let (b0, p0) = match c_eat_milli(s, len, pos) {
        Some(v) => v,
        None => {
            return None;
        },
    };
    let p1 = match c_eat_tok(s, len, p0, ",") {
        Some(v) => v,
        None => {
            return None;
        },
    };
    let (b1, p2) = match c_eat_milli(s, len, p1) {
        Some(v) => v,
        None => {
            return None;
        },
    };
    let p3 = match c_eat_tok(s, len, p2, ",") {
        Some(v) => v,
        None => {
            return None;
        },
    };
    let (b2, p4) = match c_eat_milli(s, len, p3) {
        Some(v) => v,
        None => {
            return None;
        },
    };
    let p5 = match c_eat_tok(s, len, p4, ",") {
        Some(v) => v,
        None => {
            return None;
        },
    };
    let (b3, p6) = match c_eat_milli(s, len, p5) {
        Some(v) => v,
        None => {
            return None;
        },
    };
    Some(((b0, b1, b2, b3), p6))
}

/// Consume one detection object, computing what `spec_eat_detection`
/// denotes there.
#[verifier::rlimit(100)]
fn c_eat_detection(s: &str, len: usize, pos: usize) -> (r: Option<(Detection, usize)>)
    requires
        len == s@.len(),
        pos <= len,
    ensures
        match spec_eat_detection(s@.skip(pos as int)) {
            Some((dv, rest)) => r matches Some(v) && spec_det_view(v.0) == dv && v.0.wf() && pos
                < v.1 <= len && s@.skip(v.1 as int) == rest,
            None => r is None,
        },
{
    proof {
        reveal(spec_eat_detection);
        reveal_strlit("}");
        assert("}"@ =~= seq!['}']);
    }
    let p0 = match c_eat_tok(s, len, pos, "{\"detection_type\":") {
        Some(v) => v,
        None => {
            return None;
        },
    };
    let (dtype, p1) = match c_eat_str(s, len, p0) {
        Some(v) => v,
        None => {
            return None;
        },
    };
    let p2 = match c_eat_tok(s, len, p1, ",\"confidence\":") {
        Some(v) => v,
        None => {
            return None;
        },
    };
    let (conf, p3) = match c_eat_milli(s, len, p2) {
        Some(v) => v,
        None => {
            return None;
        },
    };
    let p4 = match c_eat_tok(s, len, p3, ",\"bbox\":[") {
        Some(v) => v,
        None => {
            return None;
        },
    };
    let (bbox, p5) = match c_eat_bbox(s, len, p4) {
        Some(v) => v,
        None => {
            return None;
        },
    };
    let p6 = match c_eat_tok(s, len, p5, "],\"attributes\":") {
        Some(v) => v,
        None => {
            return None;
        },
    };
    let (attrs, p7) = match c_eat_meta(s, len, p6) {
        Some(v) => v,
        None => {
            return None;
        },
    };
    let p8 = match c_eat_tok(s, len, p7, "}") {
        Some(v) => v,
        None => {
            return None;
        },
    };
    if conf > 1000 || bbox.0 > 1000 || bbox.1 > 1000 || bbox.2 > 1000 || bbox.3 > 1000 {
        return None;
    }
    let bbox_arr: [u32; 4] = [bbox.0 as u32, bbox.1 as u32, bbox.2 as u32, bbox.3 as u32];
    proof {
        assert(bbox_arr@.len() == 4);
        assert(bbox_arr@[0] == bbox.0 as u32);
        assert(bbox_arr@[1] == bbox.1 as u32);
        assert(bbox_arr@[2] == bbox.2 as u32);
        assert(bbox_arr@[3] == bbox.3 as u32);
    }
    let d = Detection {
        detection_type: dtype,
        confidence_milli: conf as u32,
        bbox_milli: bbox_arr,
        attributes: attrs,
    };
    proof {
        assert(d.wf());
    }
    Some((d, p8))
}

/// Consume a non-empty detection array, computing what
/// `spec_eat_detections` denotes there.
#[verifier::rlimit(100)]
fn c_eat_detections(s: &str, len: usize, pos: usize) -> (r: Option<(Vec<Detection>, usize)>)
    requires
        len == s@.len(),
        pos <= len,
    ensures
        match spec_eat_detections(s@.skip(pos as int)) {
            Some((dvs, rest)) => r matches Some(v) && spec_dets_view(v.0@) == dvs && (forall|
                i: int,
            |
                0 <= i < v.0@.len() ==> (#[trigger] v.0@[i]).wf()) && pos < v.1 <= len && s@.skip(
                v.1 as int,
            ) == rest,
            None => r is None,
        },
{
    let ghost start = pos as int;
    let mut dets: Vec<Detection> = Vec::new();
    let mut cur = pos;
    proof {
        if spec_eat_detections(s@.skip(start)) is Some {
            let pr = spec_eat_detections(s@.skip(start)).unwrap();
            assert(spec_dets_view(dets@) + pr.0 =~= pr.0);
        }
    }
    loop
        invariant
            pos <= cur <= len,
            pos < cur || dets@.len() == 0,
            len == s@.len(),
            start == pos,
            forall|i: int| 0 <= i < dets@.len() ==> (#[trigger] dets@[i]).wf(),
            spec_eat_detections(s@.skip(start)) == match spec_eat_detections(s@.skip(cur as int)) {
                Some((more, rest)) => Some((spec_dets_view(dets@) + more, rest)),
                None => None::<
                    (
                        Seq<(Seq<char>, int, int, int, int, int, Option<Seq<(Seq<char>, Seq<char>)>>)>,
                        Seq<char>,
                    ),
                >,
            },
        decreases len - cur,
    {
        let ghost w = s@.skip(cur as int);
        let (d, p1) = match c_eat_detection(s, len, cur) {
            Some(v) => v,
            None => {
                return None;
            },
        };
        let ghost old_dets = dets@;
        let ghost dv = spec_det_view(d);
        dets.push(d);
        proof {
            assert(spec_dets_view(dets@) =~= spec_dets_view(old_dets) + seq![dv]);
        }
        if p1 >= len {
            proof {
                assert(s@.skip(p1 as int).len() == 0);
            }
            return None;
        }
        let tch = s.get_char(p1);
        proof {
            assert(s@.skip(p1 as int)[0] == tch);
        }
        if tch == ',' {
            proof {
                assert(s@.skip(p1 as int).skip(1) =~= s@.skip(p1 + 1int));
                assert(s@.skip(p1 + 1int).len() < w.len());
                if spec_eat_detections(s@.skip(p1 + 1int)) is Some {
                    let pr = spec_eat_detections(s@.skip(p1 + 1int)).unwrap();
                    assert(spec_eat_detections(w) == Some((seq![dv] + pr.0, pr.1)));
                    assert(spec_dets_view(old_dets) + (seq![dv] + pr.0) =~= spec_dets_view(dets@)
                        + pr.0);
                } else {
                    assert(spec_eat_detections(w) is None);
                }
            }
            cur = p1 + 1;
        } else if tch == ']' {
            proof {
                assert(spec_eat_detections(w) == Some((seq![dv], s@.skip(p1 as int))));
                assert(spec_dets_view(old_dets) + seq![dv] =~= spec_dets_view(dets@));
            }
            return Some((dets, p1));
        } else {
            return None;
        }
    }
}

/// Consume (a comma where expected,) a key token and its colon, with
/// whitespace tolerated, returning the position of the value.
fn parse_key(s: &str, len: usize, pos: usize, key: &str, comma: bool) -> (r: Option<usize>)
    requires
        len == s@.len(),
        pos <= len,
    ensures
        r matches Some(p2) ==> pos <= p2 <= len,
{
    let mut cur = skip_ws(s, len, pos);
    if comma {
        cur = match expect_tok(s, len, cur, ",") {
            Some(v) => v,
            None => {
                return None;
            },
        };
        cur = skip_ws(s, len, cur);
    }
    cur = match expect_tok(s, len, cur, key) {
        Some(v) => v,
        None => {
            return None;
        },
    };
    cur = skip_ws(s, len, cur);
    cur = match expect_tok(s, len, cur, ":") {
        Some(v) => v,
        None => {
            return None;
        },
    };
    Some(skip_ws(s, len, cur))
}

/// `parse_key` followed by a string value.
fn parse_key_string(s: &str, len: usize, pos: usize, key: &str, comma: bool) -> (r: Option<
    (String, usize),
>)
    requires
        len == s@.len(),
        pos <= len,
    ensures
        r matches Some(v) ==> pos <= v.1 <= len,
{
    let cur = match parse_key(s, len, pos, key, comma) {
        Some(v) => v,
        None => {
            return None;
        },
    };
    parse_string(s, len, cur)
}

} // verus!
