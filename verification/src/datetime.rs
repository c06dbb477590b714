//! Calendar timestamps in UTC, held as plain civil fields.
//!
//! Event timestamps travel the wire in RFC 3339 form and feed the
//! object-store key scheme and the frame-age gate.  The type keeps the
//! civil fields; the epoch conversion gives the age arithmetic.

use vstd::prelude::*;
use crate::strutil::{
    append_u64_pad, digit_val, lemma_pad_val, pow10, push_char, spec_all_digits, spec_seq_val,
    spec_u64_pad, spec_digit_val,
};

verus! {

/// One instant in UTC, millisecond precision, years 1970 through 9999.
#[derive(Clone, Copy, PartialEq, Eq, Structural, Debug)]
pub struct UtcDateTime {
    pub year: u16,
    pub month: u8,
    pub day: u8,
    pub hour: u8,
    pub minute: u8,
    pub second: u8,
    pub millisecond: u16,
}

pub open spec fn spec_is_leap(y: int) -> bool {
    y % 4 == 0 && (y % 100 != 0 || y % 400 == 0)
}

pub open spec fn spec_year_len(y: int) -> int {
    if spec_is_leap(y) {
        366
    } else {
        365
    }
}

pub open spec fn spec_days_in_month(y: int, m: int) -> int {
    if m == 2 {
        if spec_is_leap(y) {
            29
        } else {
            28
        }
    } else if m == 4 || m == 6 || m == 9 || m == 11 {
        30
    } else {
        31
    }
}

/// Days from 1970-01-01 to the first day of year `y`.
pub open spec fn spec_days_before_year(y: int) -> int
    decreases y - 1970,
{
    if y <= 1970 {
        0
    } else {
        spec_days_before_year(y - 1) + spec_year_len(y - 1)
    }
}

/// Days from the first of January to the first day of month `m` in year `y`.
pub open spec fn spec_days_before_month(y: int, m: int) -> int
    decreases m,
{
    if m <= 1 {
        0
    } else {
        spec_days_before_month(y, m - 1) + spec_days_in_month(y, m - 1)
    }
}

/// Days since 1970-01-01.
pub open spec fn spec_days_from_civil(y: int, m: int, d: int) -> int {
    spec_days_before_year(y) + spec_days_before_month(y, m) + (d - 1)
}

impl UtcDateTime {
    /// Field ranges of a real calendar instant.
    pub open spec fn wf(self) -> bool {
        &&& 1970 <= self.year <= 9999
        &&& 1 <= self.month <= 12
        &&& 1 <= self.day <= spec_days_in_month(self.year as int, self.month as int)
        &&& self.hour < 24
        &&& self.minute < 60
        &&& self.second < 60
        &&& self.millisecond < 1000
    }

    /// Milliseconds since the Unix epoch.
    pub open spec fn spec_epoch_millis(self) -> int {
        (((spec_days_from_civil(self.year as int, self.month as int, self.day as int) * 24
            + self.hour) * 60 + self.minute) * 60 + self.second) * 1000 + self.millisecond
    }
}

proof fn lemma_days_before_year_bound(y: int)
    requires
        1970 <= y <= 10000,
    ensures
        0 <= spec_days_before_year(y) <= 366 * (y - 1970),
    decreases y - 1970,
{
    if y > 1970 {
        lemma_days_before_year_bound(y - 1);
    }
}

proof fn lemma_days_before_month_bound(y: int, m: int)
    requires
        1 <= m <= 12,
    ensures
        0 <= spec_days_before_month(y, m) <= 31 * (m - 1),
    decreases m,
{
    if m > 1 {
        lemma_days_before_month_bound(y, m - 1);
    }
}

pub fn days_in_month(year: u16, month: u8) -> (r: u8)
    ensures
        r as int == spec_days_in_month(year as int, month as int),
{
    if month == 2 {
        if year % 4 == 0 && (year % 100 != 0 || year % 400 == 0) {
            29
        } else {
            28
        }
    } else if month == 4 || month == 6 || month == 9 || month == 11 {
        30
    } else {
        31
    }
}

fn days_before_year(year: u16) -> (r: u32)
    requires
        1970 <= year <= 9999,
    ensures
        r as int == spec_days_before_year(year as int),
        r <= 366 * 8030,
{
    let mut y: u16 = 1970;
    let mut acc: u32 = 0;
    while y < year
        invariant
            1970 <= y <= year <= 9999,
            acc as int == spec_days_before_year(y as int),
            acc <= 366 * (y - 1970),
        decreases year - y,
    {
        let leap = y % 4 == 0 && (y % 100 != 0 || y % 400 == 0);
        acc = acc + if leap {
            366
        } else {
            365
        };
        y = y + 1;
    }
    proof {
        lemma_days_before_year_bound(year as int);
    }
    acc
}

fn days_before_month(year: u16, month: u8) -> (r: u16)
    requires
        1 <= month <= 12,
    ensures
        r as int == spec_days_before_month(year as int, month as int),
        r <= 31 * 11,
{
    let mut m: u8 = 1;
    let mut acc: u16 = 0;
    while m < month
        invariant
            1 <= m <= month <= 12,
            acc as int == spec_days_before_month(year as int, m as int),
            acc <= 31 * (m - 1),
        decreases month - m,
    {
        acc = acc + days_in_month(year, m) as u16;
        m = m + 1;
    }
    acc
}

impl UtcDateTime {
    /// Milliseconds since the Unix epoch.
    pub fn epoch_millis(&self) -> (r: u64)
        requires
            self.wf(),
        ensures
            r as int == self.spec_epoch_millis(),
    {
        let days: u64 = days_before_year(self.year) as u64 + days_before_month(
            self.year,
            self.month,
        ) as u64 + (self.day as u64 - 1);
        (((days * 24 + self.hour as u64) * 60 + self.minute as u64) * 60 + self.second as u64)
            * 1000 + self.millisecond as u64
    }

    /// `YYYY-MM-DD` of the instant's date.
    pub open spec fn spec_date_str(self) -> Seq<char> {
        spec_u64_pad(self.year as int, 4) + seq!['-'] + spec_u64_pad(self.month as int, 2)
            + seq!['-'] + spec_u64_pad(self.day as int, 2)
    }

    /// `HHMMSSmmm` of the instant's time of day.
    pub open spec fn spec_time_key(self) -> Seq<char> {
        spec_u64_pad(self.hour as int, 2) + spec_u64_pad(self.minute as int, 2) + spec_u64_pad(
            self.second as int,
            2,
        ) + spec_u64_pad(self.millisecond as int, 3)
    }

    /// RFC 3339 rendering, `Z` offset, fractional seconds only when the
    /// millisecond field is non-zero.
    pub open spec fn spec_rfc3339(self) -> Seq<char> {
        self.spec_date_str() + seq!['T'] + spec_u64_pad(self.hour as int, 2) + seq![':']
            + spec_u64_pad(self.minute as int, 2) + seq![':'] + spec_u64_pad(self.second as int, 2)
            + (if self.millisecond == 0 {
            Seq::<char>::empty()
        } else {
            seq!['.'] + spec_u64_pad(self.millisecond as int, 3)
        }) + seq!['Z']
    }

    pub fn format_date(&self) -> (r: String)
        requires
            self.wf(),
        ensures
            r@ == self.spec_date_str(),
    {
        proof {
            crate::strutil::lemma_pow10_small();
        }
        let mut out = String::new();
        append_u64_pad(&mut out, self.year as u64, 4);
        push_char(&mut out, '-');
        append_u64_pad(&mut out, self.month as u64, 2);
        push_char(&mut out, '-');
        append_u64_pad(&mut out, self.day as u64, 2);
        proof {
            assert(out@ =~= self.spec_date_str());
        }
        out
    }

    pub fn format_time_key(&self) -> (r: String)
        requires
            self.wf(),
        ensures
            r@ == self.spec_time_key(),
    {
        proof {
            crate::strutil::lemma_pow10_small();
        }
        let mut out = String::new();
        append_u64_pad(&mut out, self.hour as u64, 2);
        append_u64_pad(&mut out, self.minute as u64, 2);
        append_u64_pad(&mut out, self.second as u64, 2);
        append_u64_pad(&mut out, self.millisecond as u64, 3);
        proof {
            assert(out@ =~= self.spec_time_key());
        }
        out
    }

    pub fn format_rfc3339(&self) -> (r: String)
        requires
            self.wf(),
        ensures
            r@ == self.spec_rfc3339(),
    {
        proof {
            crate::strutil::lemma_pow10_small();
        }
        let mut out = self.format_date();
        push_char(&mut out, 'T');
        append_u64_pad(&mut out, self.hour as u64, 2);
        push_char(&mut out, ':');
        append_u64_pad(&mut out, self.minute as u64, 2);
        push_char(&mut out, ':');
        append_u64_pad(&mut out, self.second as u64, 2);
        if self.millisecond > 0 {
            push_char(&mut out, '.');
            append_u64_pad(&mut out, self.millisecond as u64, 3);
        }
        push_char(&mut out, 'Z');
        proof {
            assert(out@ =~= self.spec_rfc3339());
        }
        out
    }
}

/// What an RFC 3339 text (with `Z` offset) denotes: the instant, or
/// nothing when the text is not such a rendering.
pub open spec fn spec_parse_rfc3339(s: Seq<char>) -> Option<UtcDateTime> {
    if s.len() < 20 {
        None
    } else if !(s[4] == '-' && s[7] == '-' && s[10] == 'T' && s[13] == ':' && s[16] == ':') {
        None
    } else if !(spec_all_digits(s.subrange(0, 4)) && spec_all_digits(s.subrange(5, 7))
        && spec_all_digits(s.subrange(8, 10)) && spec_all_digits(s.subrange(11, 13))
        && spec_all_digits(s.subrange(14, 16)) && spec_all_digits(s.subrange(17, 19))) {
        None
    } else {
        let ms = spec_parse_frac(s);
        if ms is None {
            None
        } else {
            let dt = UtcDateTime {
                year: spec_seq_val(s.subrange(0, 4)) as u16,
                month: spec_seq_val(s.subrange(5, 7)) as u8,
                day: spec_seq_val(s.subrange(8, 10)) as u8,
                hour: spec_seq_val(s.subrange(11, 13)) as u8,
                minute: spec_seq_val(s.subrange(14, 16)) as u8,
                second: spec_seq_val(s.subrange(17, 19)) as u8,
                millisecond: ms.unwrap() as u16,
            };
            if dt.wf() {
                Some(dt)
            } else {
                None
            }
        }
    }
}

/// Millisecond value of the tail after the seconds field: either `Z` alone,
/// or a dot, one to nine fractional digits, and `Z`.
pub open spec fn spec_parse_frac(s: Seq<char>) -> Option<int> {
    if s.len() == 20 {
        if s[19] == 'Z' {
            Some(0)
        } else {
            None
        }
    } else if s[19] == '.' && 22 <= s.len() <= 30 && s[s.len() - 1] == 'Z' && spec_all_digits(
        s.subrange(20, s.len() - 1),
    ) {
        let k = s.len() - 21;  // number of fractional digits
        if k >= 3 {
            Some(spec_seq_val(s.subrange(20, 23)))
        } else if k == 2 {
            Some(spec_seq_val(s.subrange(20, 22)) * 10)
        } else {
            Some(spec_seq_val(s.subrange(20, 21)) * 100)
        }
    } else {
        None
    }
}

/// Read `count` digits of `s` starting at `start` as a number.
fn read_num(s: &str, start: usize, count: usize) -> (r: Option<u32>)
    requires
        start + count <= s@.len(),
        s@.len() <= usize::MAX,
        count <= 4,
    ensures
        match r {
            Some(v) => spec_all_digits(s@.subrange(start as int, (start + count) as int)) && v
                == spec_seq_val(s@.subrange(start as int, (start + count) as int)) && v < pow10(
                count as nat,
            ),
            None => !spec_all_digits(s@.subrange(start as int, (start + count) as int)),
        },
{
    let mut acc: u32 = 0;
    let mut i: usize = 0;
    while i < count
        invariant
            i <= count <= 4,
            start + count <= s@.len(),
            s@.len() <= usize::MAX,
            spec_all_digits(s@.subrange(start as int, (start + i) as int)),
            acc == spec_seq_val(s@.subrange(start as int, (start + i) as int)),
            acc < pow10(i as nat),
        decreases count - i,
    {
        proof {
            crate::strutil::lemma_pow10_small();
        }
        let c = s.get_char(start + i);
        let d = digit_val(c);
        if d < 0 {
            proof {
                let sub = s@.subrange(start as int, (start + count) as int);
                assert(sub[i as int] == c);
                assert(!spec_all_digits(sub));
            }
            return None;
        }
        acc = acc * 10 + d as u32;
        proof {
            let sub2 = s@.subrange(start as int, (start + i + 1) as int);
            assert(sub2.drop_last() =~= s@.subrange(start as int, (start + i) as int));
            assert(sub2.last() == c);
            assert forall|j: int| 0 <= j < sub2.len() implies spec_digit_val(
                #[trigger] sub2[j],
            ) >= 0 by {
                if j < sub2.len() - 1 {
                    assert(sub2[j] == s@.subrange(start as int, (start + i) as int)[j]);
                }
            }
        }
        i = i + 1;
    }
    Some(acc)
}

/// Parse an RFC 3339 text with `Z` offset.
pub fn parse_rfc3339(s: &str) -> (r: Option<UtcDateTime>)
    ensures
        r == spec_parse_rfc3339(s@),
{
    let len = s.unicode_len();
    if len < 20 {
        return None;
    }
    if !(s.get_char(4) == '-' && s.get_char(7) == '-' && s.get_char(10) == 'T' && s.get_char(13)
        == ':' && s.get_char(16) == ':') {
        return None;
    }
    let year = read_num(s, 0, 4);
    let month = read_num(s, 5, 2);
    let day = read_num(s, 8, 2);
    let hour = read_num(s, 11, 2);
    let minute = read_num(s, 14, 2);
    let second = read_num(s, 17, 2);
    if year.is_none() || month.is_none() || day.is_none() || hour.is_none() || minute.is_none()
        || second.is_none() {
        return None;
    }
    let ms: u32;
    if len == 20 {
        if s.get_char(19) == 'Z' {
            ms = 0;
        } else {
            return None;
        }
    } else {
        if !(s.get_char(19) == '.' && 22 <= len && len <= 30 && s.get_char(len - 1) == 'Z') {
            return None;
        }
        let k = len - 21;
        if k >= 3 {
            match read_num(s, 20, 3) {
                Some(v) => {
                    ms = v;
                    proof {
                        let frac = s@.subrange(20, s@.len() - 1);
                        if spec_all_digits(frac) {
                            assert(s@.subrange(20, 23) =~= frac.subrange(0, 3));
                            assert forall|j: int| 0 <= j < 3 implies spec_digit_val(
                                #[trigger] s@.subrange(20, 23)[j],
                            ) >= 0 by {
                                assert(s@.subrange(20, 23)[j] == frac[j]);
                            }
                        } else {
                            // the spec may still reject on a later digit; check the rest
                        }
                    }
                    // the remaining fractional digits must still be digits
                    let mut j: usize = 23;
                    while j < len - 1
                        invariant
                            23 <= j <= len - 1,
                            len == s@.len(),
                            len >= 24,
                            spec_all_digits(s@.subrange(20, j as int)),
                        decreases len - 1 - j,
                    {
                        let d = digit_val(s.get_char(j));
                        if d < 0 {
                            proof {
                                let frac = s@.subrange(20, s@.len() - 1);
                                assert(frac[j - 20] == s@[j as int]);
                                assert(!spec_all_digits(frac));
                            }
                            return None;
                        }
                        proof {
                            let sub2 = s@.subrange(20, j + 1int);
                            assert forall|t: int| 0 <= t < sub2.len() implies spec_digit_val(
                                #[trigger] sub2[t],
                            ) >= 0 by {
                                if t < sub2.len() - 1 {
                                    assert(sub2[t] == s@.subrange(20, j as int)[t]);
                                } else {
                                    assert(sub2[t] == s@[j as int]);
                                }
                            }
                        }
                        j = j + 1;
                    }
                    proof {
                        let frac = s@.subrange(20, s@.len() - 1);
                        assert(frac =~= s@.subrange(20, (len - 1) as int));
                        assert(spec_all_digits(s@.subrange(20, 23)));
                    }
                },
                None => {
                    proof {
                        let frac = s@.subrange(20, s@.len() - 1);
                        let pre = s@.subrange(20, 23);
                        assert(!spec_all_digits(pre));
                        let w = choose|j: int| 0 <= j < 3 && spec_digit_val(pre[j]) < 0;
                        assert(frac[w] == pre[w]);
                        assert(!spec_all_digits(frac));
                    }
                    return None;
                },
            }
        } else if k == 2 {
            match read_num(s, 20, 2) {
                Some(v) => {
                    proof {
                        crate::strutil::lemma_pow10_small();
                    }
                    ms = v * 10;
                    proof {
                        assert(s@.subrange(20, s@.len() - 1) =~= s@.subrange(20, 22));
                    }
                },
                None => {
                    proof {
                        assert(s@.subrange(20, s@.len() - 1) =~= s@.subrange(20, 22));
                    }
                    return None;
                },
            }
        } else {
            match read_num(s, 20, 1) {
                Some(v) => {
                    proof {
                        crate::strutil::lemma_pow10_small();
                    }
                    ms = v * 100;
                    proof {
                        assert(s@.subrange(20, s@.len() - 1) =~= s@.subrange(20, 21));
                    }
                },
                None => {
                    proof {
                        assert(s@.subrange(20, s@.len() - 1) =~= s@.subrange(20, 21));
                    }
                    return None;
                },
            }
        }
    }
    let y = year.unwrap();
    let mo = month.unwrap();
    let d = day.unwrap();
    let h = hour.unwrap();
    let mi = minute.unwrap();
    let sec = second.unwrap();
    proof {
        crate::strutil::lemma_pow10_small();
    }
    if !(1970 <= y && y <= 9999 && 1 <= mo && mo <= 12 && h < 24 && mi < 60 && sec < 60 && ms
        < 1000) {
        return None;
    }
    let dt = UtcDateTime {
        year: y as u16,
        month: mo as u8,
        day: d as u8,
        hour: h as u8,
        minute: mi as u8,
        second: sec as u8,
        millisecond: ms as u16,
    };
    if d < 1 || d > days_in_month(y as u16, mo as u8) as u32 {
        return None;
    }
    Some(dt)
}

/// Rendering then parsing gives the instant back.
#[verifier::rlimit(100)]
pub proof fn lemma_rfc3339_round_trip(d: UtcDateTime)
    requires
        d.wf(),
    ensures
        spec_parse_rfc3339(d.spec_rfc3339()) == Some(d),
{
    let s = d.spec_rfc3339();
    crate::strutil::lemma_pow10_small();
    lemma_pad_val(d.year as int, 4);
    lemma_pad_val(d.month as int, 2);
    lemma_pad_val(d.day as int, 2);
    lemma_pad_val(d.hour as int, 2);
    lemma_pad_val(d.minute as int, 2);
    lemma_pad_val(d.second as int, 2);
    lemma_pad_val(d.millisecond as int, 3);
    if d.millisecond == 0 {
        assert(s.len() == 20);
        assert(s.subrange(0, 4) =~= spec_u64_pad(d.year as int, 4));
        assert(s.subrange(5, 7) =~= spec_u64_pad(d.month as int, 2));
        assert(s.subrange(8, 10) =~= spec_u64_pad(d.day as int, 2));
        assert(s.subrange(11, 13) =~= spec_u64_pad(d.hour as int, 2));
        assert(s.subrange(14, 16) =~= spec_u64_pad(d.minute as int, 2));
        assert(s.subrange(17, 19) =~= spec_u64_pad(d.second as int, 2));
        assert(s[4] == '-' && s[7] == '-' && s[10] == 'T' && s[13] == ':' && s[16] == ':');
        assert(s[19] == 'Z');
        assert(spec_parse_rfc3339(s) == Some(d));
    } else {
        assert(s.len() == 24);
        assert(s.subrange(0, 4) =~= spec_u64_pad(d.year as int, 4));
        assert(s.subrange(5, 7) =~= spec_u64_pad(d.month as int, 2));
        assert(s.subrange(8, 10) =~= spec_u64_pad(d.day as int, 2));
        assert(s.subrange(11, 13) =~= spec_u64_pad(d.hour as int, 2));
        assert(s.subrange(14, 16) =~= spec_u64_pad(d.minute as int, 2));
        assert(s.subrange(17, 19) =~= spec_u64_pad(d.second as int, 2));
        assert(s.subrange(20, 23) =~= spec_u64_pad(d.millisecond as int, 3));
        assert(s[4] == '-' && s[7] == '-' && s[10] == 'T' && s[13] == ':' && s[16] == ':');
        assert(s[19] == '.');
        assert(s[23] == 'Z');
        assert(s.subrange(20, s.len() - 1) =~= spec_u64_pad(d.millisecond as int, 3));
        assert(spec_parse_rfc3339(s) == Some(d));
    }
}

} // verus!
