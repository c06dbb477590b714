//! Small string helpers shared by the library: single-character append,
//! decimal formatting, and ASCII case handling.

use vstd::prelude::*;

verus! {

/// Relies on std's `String::push`: appends the given character to the end
/// of the string.
#[verifier::external_body]
pub fn push_char(s: &mut String, c: char)
    ensures
        final(s)@ == old(s)@.push(c),
{
    s.push(c);
}

/// The decimal digit character for a value below ten.
pub open spec fn spec_digit_char(d: int) -> char {
    if d == 0 {
        '0'
    } else if d == 1 {
        '1'
    } else if d == 2 {
        '2'
    } else if d == 3 {
        '3'
    } else if d == 4 {
        '4'
    } else if d == 5 {
        '5'
    } else if d == 6 {
        '6'
    } else if d == 7 {
        '7'
    } else if d == 8 {
        '8'
    } else {
        '9'
    }
}

/// Decimal digit sequence of `n`, without a sign and without leading zeros
/// (a single `'0'` for zero).
pub open spec fn spec_u64_dec(n: int) -> Seq<char>
    decreases n,
{
    if n <= 0 {
        seq!['0']
    } else if n < 10 {
        seq![spec_digit_char(n)]
    } else {
        spec_u64_dec(n / 10).push(spec_digit_char(n % 10))
    }
}

pub fn digit_char(d: u64) -> (c: char)
    requires
        d < 10,
    ensures
        c == spec_digit_char(d as int),
{
    if d == 0 {
        '0'
    } else if d == 1 {
        '1'
    } else if d == 2 {
        '2'
    } else if d == 3 {
        '3'
    } else if d == 4 {
        '4'
    } else if d == 5 {
        '5'
    } else if d == 6 {
        '6'
    } else if d == 7 {
        '7'
    } else if d == 8 {
        '8'
    } else {
        '9'
    }
}

/// Append the decimal form of `n` to `out`.
pub fn append_u64(out: &mut String, n: u64)
    ensures
        final(out)@ == old(out)@ + spec_u64_dec(n as int),
    decreases n,
{
    if n < 10 {
        push_char(out, digit_char(n));
        proof {
            assert(final(out)@ =~= old(out)@ + spec_u64_dec(n as int));
        }
    } else {
        append_u64(out, n / 10);
        push_char(out, digit_char(n % 10));
        proof {
            assert(final(out)@ =~= old(out)@ + spec_u64_dec(n as int));
        }
    }
}

/// Decimal form of `n`.
pub fn u64_to_string(n: u64) -> (r: String)
    ensures
        r@ == spec_u64_dec(n as int),
{
    let mut out = String::new();
    append_u64(&mut out, n);
    proof {
        assert(out@ =~= spec_u64_dec(n as int));
    }
    out
}

/// Decimal digits of `n`, zero-padded on the left to `width` characters.
/// `n` must fit in `width` digits.
pub open spec fn spec_u64_pad(n: int, width: nat) -> Seq<char>
    decreases width,
{
    if width == 0 {
        Seq::empty()
    } else {
        spec_u64_pad(n / 10, (width - 1) as nat).push(spec_digit_char(n % 10))
    }
}

/// Append `n` zero-padded to exactly `width` digits.
pub fn append_u64_pad(out: &mut String, n: u64, width: u64)
    requires
        pow10(width as nat) > n,
        width <= 9,
    ensures
        final(out)@ == old(out)@ + spec_u64_pad(n as int, width as nat),
    decreases width,
{
    if width == 0 {
        proof {
            assert(final(out)@ =~= old(out)@ + spec_u64_pad(n as int, 0));
        }
    } else {
        proof {
            assert(pow10((width - 1) as nat) > n / 10) by {
                assert(pow10(width as nat) == 10 * pow10((width - 1) as nat));
            }
        }
        append_u64_pad(out, n / 10, width - 1);
        push_char(out, digit_char(n % 10));
        proof {
            assert(final(out)@ =~= old(out)@ + spec_u64_pad(n as int, width as nat));
        }
    }
}

/// Ten to the power `w`.
pub open spec fn pow10(w: nat) -> int
    decreases w,
{
    if w == 0 {
        1
    } else {
        10 * pow10((w - 1) as nat)
    }
}

/// Value of a decimal digit character, or -1 for any other character.
pub open spec fn spec_digit_val(c: char) -> int {
    let v = c as int;
    if 48 <= v && v < 58 {
        v - 48
    } else {
        -1
    }
}

pub fn digit_val(c: char) -> (r: i8)
    ensures
        r as int == spec_digit_val(c),
{
    let v = c as u32;
    if 48 <= v && v < 58 {
        (v - 48) as i8
    } else {
        -1
    }
}

/// Numeric value of a digit sequence (most significant first); meaningful
/// only when every character is a digit.
pub open spec fn spec_seq_val(s: Seq<char>) -> int
    decreases s.len(),
{
    if s.len() == 0 {
        0
    } else {
        spec_seq_val(s.drop_last()) * 10 + spec_digit_val(s.last())
    }
}

pub open spec fn spec_all_digits(s: Seq<char>) -> bool {
    forall|i: int| 0 <= i < s.len() ==> spec_digit_val(#[trigger] s[i]) >= 0
}

/// A zero-padded rendering reads back as the value it was made from.
pub proof fn lemma_pad_val(n: int, w: nat)
    requires
        0 <= n,
    ensures
        spec_seq_val(spec_u64_pad(n, w)) == n % pow10(w),
        spec_u64_pad(n, w).len() == w,
        spec_all_digits(spec_u64_pad(n, w)),
    decreases w,
{
    if w == 0 {
        assert(pow10(0) == 1);
    } else {
        lemma_pad_val(n / 10, (w - 1) as nat);
        let s = spec_u64_pad(n, w);
        assert(s.drop_last() =~= spec_u64_pad(n / 10, (w - 1) as nat));
        assert(spec_digit_val(spec_digit_char(n % 10)) == n % 10);
        assert((n / 10) % pow10((w - 1) as nat) * 10 + n % 10 == n % pow10(w)) by {
            let p = pow10((w - 1) as nat);
            assert(pow10(w) == 10 * p);
            assert(p > 0) by {
                lemma_pow10_pos((w - 1) as nat);
            }
            vstd::arithmetic::div_mod::lemma_breakdown(n, 10, p);
            assert(n % (10 * p) == 10 * ((n / 10) % p) + n % 10);
        }
        assert forall|i: int| 0 <= i < s.len() implies spec_digit_val(#[trigger] s[i]) >= 0 by {
            if i < s.len() - 1 {
                assert(s[i] == spec_u64_pad(n / 10, (w - 1) as nat)[i]);
            }
        }
    }
}

/// The small powers of ten that fixed-width fields use.
pub proof fn lemma_pow10_small()
    ensures
        pow10(0) == 1,
        pow10(1) == 10,
        pow10(2) == 100,
        pow10(3) == 1000,
        pow10(4) == 10000,
{
    assert(pow10(0) == 1);
    assert(pow10(1) == 10 * pow10(0));
    assert(pow10(2) == 10 * pow10(1));
    assert(pow10(3) == 10 * pow10(2));
    assert(pow10(4) == 10 * pow10(3));
}

/// Powers of ten grow with the exponent.
pub proof fn lemma_pow10_mono(a: nat, b: nat)
    requires
        a <= b,
    ensures
        pow10(a) <= pow10(b),
    decreases b,
{
    if a < b {
        lemma_pow10_mono(a, (b - 1) as nat);
        lemma_pow10_pos((b - 1) as nat);
    }
}

pub proof fn lemma_pow10_pos(w: nat)
    ensures
        pow10(w) >= 1,
    decreases w,
{
    if w > 0 {
        lemma_pow10_pos((w - 1) as nat);
    }
}

/// The decimal rendering of a value reads back as that value.
pub proof fn lemma_dec_val(n: int)
    requires
        n >= 0,
    ensures
        spec_seq_val(spec_u64_dec(n)) == n,
        spec_all_digits(spec_u64_dec(n)),
        spec_u64_dec(n).len() >= 1,
    decreases n,
{
    if n < 10 {
        let s = spec_u64_dec(n);
        assert(s.len() == 1);
        assert(s.drop_last() =~= Seq::<char>::empty());
        assert(spec_seq_val(s.drop_last()) == 0);
        if n == 0 {
            assert(s.last() == '0');
            assert(spec_digit_val('0') == 0);
        } else {
            assert(s.last() == spec_digit_char(n));
            assert(spec_digit_val(spec_digit_char(n)) == n);
        }
        assert(spec_seq_val(s) == spec_seq_val(s.drop_last()) * 10 + spec_digit_val(s.last()));
    } else {
        lemma_dec_val(n / 10);
        let s = spec_u64_dec(n);
        assert(s.drop_last() =~= spec_u64_dec(n / 10));
        assert(s.last() == spec_digit_char(n % 10));
        assert(spec_digit_val(s.last()) == n % 10);
        assert forall|i: int| 0 <= i < s.len() implies spec_digit_val(#[trigger] s[i]) >= 0 by {
            if i < s.len() - 1 {
                assert(s[i] == spec_u64_dec(n / 10)[i]);
            }
        }
    }
}

/// A value below ten to the `w` renders in at most `w` digits.
pub proof fn lemma_dec_len(n: int, w: nat)
    requires
        0 <= n < pow10(w),
        w >= 1,
    ensures
        spec_u64_dec(n).len() <= w,
    decreases n,
{
    if n >= 10 {
        assert(pow10(w) == 10 * pow10((w - 1) as nat));
        assert(n / 10 < pow10((w - 1) as nat));
        if w - 1 >= 1 {
            lemma_dec_len(n / 10, (w - 1) as nat);
        } else {
            lemma_pow10_pos(0);
            assert(false);
        }
    }
}

/// Ten to the twentieth, enough to cover every 64-bit value.
pub proof fn lemma_pow10_20()
    ensures
        pow10(20) == 100000000000000000000,
{
    lemma_pow10_small();
    assert(pow10(5) == 10 * pow10(4));
    assert(pow10(6) == 10 * pow10(5));
    assert(pow10(7) == 10 * pow10(6));
    assert(pow10(8) == 10 * pow10(7));
    assert(pow10(9) == 10 * pow10(8));
    assert(pow10(10) == 10 * pow10(9));
    assert(pow10(11) == 10 * pow10(10));
    assert(pow10(12) == 10 * pow10(11));
    assert(pow10(13) == 10 * pow10(12));
    assert(pow10(14) == 10 * pow10(13));
    assert(pow10(15) == 10 * pow10(14));
    assert(pow10(16) == 10 * pow10(15));
    assert(pow10(17) == 10 * pow10(16));
    assert(pow10(18) == 10 * pow10(17));
    assert(pow10(19) == 10 * pow10(18));
    assert(pow10(20) == 10 * pow10(19));
}

/// A sequence of digit characters reads as a value below ten to its length.
pub proof fn lemma_seq_val_bound(s: Seq<char>)
    requires
        spec_all_digits(s),
    ensures
        0 <= spec_seq_val(s) < pow10(s.len()),
    decreases s.len(),
{
    if s.len() == 0 {
    } else {
        assert(spec_all_digits(s.drop_last())) by {
            assert forall|i: int| 0 <= i < s.len() - 1 implies spec_digit_val(
                #[trigger] s.drop_last()[i],
            ) >= 0 by {
                assert(s.drop_last()[i] == s[i]);
            }
        }
        lemma_seq_val_bound(s.drop_last());
        assert(spec_digit_val(s.last()) >= 0);
        assert(spec_digit_val(s.last()) <= 9);
        assert(pow10(s.len()) == 10 * pow10((s.len() - 1) as nat));
    }
}

/// Rendering of a value in thousandths with exactly two decimal places,
/// rounded half-up, as `{:.2}` renders the fraction it stands for.
pub open spec fn spec_milli_2dp(m: int) -> Seq<char> {
    let h = (m + 5) / 10;
    spec_u64_dec(h / 100) + seq!['.'] + spec_u64_pad(h % 100, 2)
}

pub fn append_milli_2dp(out: &mut String, m: u32)
    ensures
        final(out)@ == old(out)@ + spec_milli_2dp(m as int),
{
    proof {
        lemma_pow10_small();
    }
    let h = (m as u64 + 5) / 10;
    append_u64(out, h / 100);
    push_char(out, '.');
    append_u64_pad(out, h % 100, 2);
    proof {
        assert(final(out)@ =~= old(out)@ + spec_milli_2dp(m as int));
    }
}

/// Shortest rendering of a value in thousandths, as `{}` renders the
/// fraction it stands for: no point for a whole number, no trailing zeros.
pub open spec fn spec_milli_display(m: int) -> Seq<char> {
    let whole = spec_u64_dec(m / 1000);
    let frac = m % 1000;
    if frac == 0 {
        whole
    } else if frac % 100 == 0 {
        whole + seq!['.'] + seq![spec_digit_char(frac / 100)]
    } else if frac % 10 == 0 {
        whole + seq!['.'] + spec_u64_pad(frac / 10, 2)
    } else {
        whole + seq!['.'] + spec_u64_pad(frac, 3)
    }
}

pub fn append_milli_display(out: &mut String, m: u32)
    ensures
        final(out)@ == old(out)@ + spec_milli_display(m as int),
{
    proof {
        lemma_pow10_small();
    }
    append_u64(out, (m / 1000) as u64);
    let frac = m % 1000;
    if frac == 0 {
    } else if frac % 100 == 0 {
        push_char(out, '.');
        push_char(out, digit_char((frac / 100) as u64));
    } else if frac % 10 == 0 {
        push_char(out, '.');
        append_u64_pad(out, (frac / 10) as u64, 2);
    } else {
        push_char(out, '.');
        append_u64_pad(out, frac as u64, 3);
    }
    proof {
        assert(final(out)@ =~= old(out)@ + spec_milli_display(m as int));
    }
}

/// Whether `c` is an ASCII upper-case letter.
pub open spec fn spec_is_upper(c: char) -> bool {
    'A' <= c && c <= 'Z'
}

/// ASCII lower-casing of one character.
pub open spec fn spec_lower_char(c: char) -> char {
    if spec_is_upper(c) {
        ((c as u8) + 32) as char
    } else {
        c
    }
}

/// ASCII lower-casing of a character sequence.
pub open spec fn spec_lower(s: Seq<char>) -> Seq<char> {
    s.map_values(|c: char| spec_lower_char(c))
}

pub fn lower_char(c: char) -> (r: char)
    ensures
        r == spec_lower_char(c),
{
    if 'A' <= c && c <= 'Z' {
        (((c as u8) + 32) as char)
    } else {
        c
    }
}

/// ASCII lower-case copy of a string.
pub fn to_ascii_lowercase(s: &str) -> (r: String)
    ensures
        r@ == spec_lower(s@),
{
    let len = s.unicode_len();
    let mut out = String::new();
    let mut i: usize = 0;
    while i < len
        invariant
            len == s@.len(),
            i <= len,
            out@ == spec_lower(s@.subrange(0, i as int)),
        decreases len - i,
    {
        let c = s.get_char(i);
        push_char(&mut out, lower_char(c));
        proof {
            assert(s@.subrange(0, i + 1int).drop_last() =~= s@.subrange(0, i as int));
            assert(out@ =~= spec_lower(s@.subrange(0, i + 1int)));
        }
        i = i + 1;
    }
    proof {
        assert(s@.subrange(0, len as int) =~= s@);
    }
    out
}

/// Whether `s` begins with `prefix`.
pub fn str_starts_with(s: &str, prefix: &str) -> (r: bool)
    ensures
        r == (s@.len() >= prefix@.len() && s@.subrange(0, prefix@.len() as int) == prefix@),
{
    let slen = s.unicode_len();
    let plen = prefix.unicode_len();
    if slen < plen {
        return false;
    }
    let mut i: usize = 0;
    while i < plen
        invariant
            i <= plen,
            plen <= slen == s@.len(),
            plen == prefix@.len(),
            forall|j: int| 0 <= j < i ==> s@[j] == prefix@[j],
        decreases plen - i,
    {
        if s.get_char(i) != prefix.get_char(i) {
            proof {
                assert(s@.subrange(0, plen as int)[i as int] != prefix@[i as int]);
            }
            return false;
        }
        i = i + 1;
    }
    proof {
        assert(s@.subrange(0, plen as int) =~= prefix@);
    }
    true
}

/// Whether two string slices hold the same characters.
pub fn str_eq(a: &str, b: &str) -> (r: bool)
    ensures
        r == (a@ == b@),
{
    let sa: String = a.to_owned();
    let sb: String = b.to_owned();
    sa == sb
}

/// A character kept as itself in a sanitized path segment, or an
/// underscore in its place.
pub open spec fn spec_sanitize_char(c: char) -> char {
    if ('a' <= c && c <= 'z') || ('A' <= c && c <= 'Z') || ('0' <= c && c <= '9') || c == '-'
        || c == '_' {
        c
    } else {
        '_'
    }
}

/// The sanitized form of a path segment: every character outside
/// `[A-Za-z0-9_-]` replaced with an underscore.
pub open spec fn spec_sanitize(s: Seq<char>) -> Seq<char> {
    s.map_values(|c: char| spec_sanitize_char(c))
}

/// Append the sanitized form of `component` to `out`.
pub fn sanitize_append(out: &mut String, component: &str)
    ensures
        final(out)@ == old(out)@ + spec_sanitize(component@),
{
    let len = component.unicode_len();
    let mut i: usize = 0;
    while i < len
        invariant
            len == component@.len(),
            i <= len,
            out@ == old(out)@ + spec_sanitize(component@.subrange(0, i as int)),
        decreases len - i,
    {
        let c = component.get_char(i);
        let keep = ('a' <= c && c <= 'z') || ('A' <= c && c <= 'Z') || ('0' <= c && c <= '9')
            || c == '-' || c == '_';
        if keep {
            push_char(out, c);
        } else {
            push_char(out, '_');
        }
        proof {
            assert(component@.subrange(0, i + 1int).drop_last() =~= component@.subrange(
                0,
                i as int,
            ));
            assert(out@ =~= old(out)@ + spec_sanitize(component@.subrange(0, i + 1int)));
        }
        i = i + 1;
    }
    proof {
        assert(component@.subrange(0, len as int) =~= component@);
    }
}

/// Whether two strings are equal up to ASCII case.
pub open spec fn spec_eq_ignore_case(a: Seq<char>, b: Seq<char>) -> bool {
    spec_lower(a) == spec_lower(b)
}

pub fn eq_ignore_ascii_case(a: &str, b: &str) -> (r: bool)
    ensures
        r == spec_eq_ignore_case(a@, b@),
{
    let la = to_ascii_lowercase(a);
    let lb = to_ascii_lowercase(b);
    la == lb
}

} // verus!
