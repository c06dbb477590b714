//! Standard (padded) base64 encoding and decoding of byte buffers.
//!
//! The wire format of storage trigger events carries the frame bytes in this
//! form, and dead-letter envelopes wrap the original message with it.

use vstd::prelude::*;

verus! {

/// Character of the standard base64 alphabet for a six-bit value.
pub open spec fn spec_enc6(v: int) -> char {
    if v < 26 {
        ((65 + v) as u8) as char  // 'A'..='Z'
    } else if v < 52 {
        ((71 + v) as u8) as char  // 'a'..='z'
    } else if v < 62 {
        ((v - 4) as u8) as char  // '0'..='9'
    } else if v == 62 {
        '+'
    } else {
        '/'
    }
}

/// Six-bit value of an alphabet character, or -1 for a character outside
/// the alphabet.
pub open spec fn spec_dec6(c: char) -> int {
    let v = c as int;
    if 65 <= v && v < 91 {
        v - 65
    } else if 97 <= v && v < 123 {
        v - 71
    } else if 48 <= v && v < 58 {
        v + 4
    } else if v == 43 {
        62
    } else if v == 47 {
        63
    } else {
        -1
    }
}

/// Base64 text of a byte sequence: four characters for every group of
/// three bytes, the last group padded with `=`.
pub open spec fn spec_b64(s: Seq<u8>) -> Seq<char>
    decreases s.len(),
{
    if s.len() == 0 {
        Seq::empty()
    } else if s.len() == 1 {
        let b0 = s[0] as int;
        seq![spec_enc6(b0 / 4), spec_enc6((b0 % 4) * 16), '=', '=']
    } else if s.len() == 2 {
        let b0 = s[0] as int;
        let b1 = s[1] as int;
        seq![spec_enc6(b0 / 4), spec_enc6((b0 % 4) * 16 + b1 / 16), spec_enc6((b1 % 16) * 4), '=']
    } else {
        let b0 = s[0] as int;
        let b1 = s[1] as int;
        let b2 = s[2] as int;
        seq![
            spec_enc6(b0 / 4),
            spec_enc6((b0 % 4) * 16 + b1 / 16),
            spec_enc6((b1 % 16) * 4 + b2 / 64),
            spec_enc6(b2 % 64),
        ] + spec_b64(s.skip(3))
    }
}

/// Bytes denoted by a base64 text, or `None` where the text is not a
/// padded base64 encoding.
pub open spec fn spec_b64_decode(s: Seq<char>) -> Option<Seq<u8>>
    decreases s.len(),
{
    if s.len() == 0 {
        Some(Seq::empty())
    } else if s.len() < 4 {
        None
    } else {
        let c0 = spec_dec6(s[0]);
        let c1 = spec_dec6(s[1]);
        if c0 < 0 || c1 < 0 {
            None
        } else if s.len() == 4 && s[2] == '=' {
            if s[3] == '=' {
                Some(seq![(c0 * 4 + c1 / 16) as u8])
            } else {
                None
            }
        } else if s.len() == 4 && s[3] == '=' {
            let c2 = spec_dec6(s[2]);
            if c2 < 0 {
                None
            } else {
                Some(seq![(c0 * 4 + c1 / 16) as u8, ((c1 % 16) * 16 + c2 / 4) as u8])
            }
        } else {
            let c2 = spec_dec6(s[2]);
            let c3 = spec_dec6(s[3]);
            if c2 < 0 || c3 < 0 {
                None
            } else {
                match spec_b64_decode(s.skip(4)) {
                    Some(rest) => Some(
                        seq![
                            (c0 * 4 + c1 / 16) as u8,
                            ((c1 % 16) * 16 + c2 / 4) as u8,
                            ((c2 % 4) * 64 + c3) as u8,
                        ] + rest,
                    ),
                    None => None,
                }
            }
        }
    }
}

/// Encoding a whole-group prefix distributes over concatenation.
proof fn lemma_b64_append(a: Seq<u8>, b: Seq<u8>)
    requires
        a.len() % 3 == 0,
    ensures
        spec_b64(a + b) == spec_b64(a) + spec_b64(b),
    decreases a.len(),
{
    if a.len() == 0 {
        assert(a + b =~= b);
        assert(spec_b64(a) + spec_b64(b) =~= spec_b64(b));
    } else {
        assert(a.len() >= 3);
        let ab = a + b;
        if b.len() == 0 {
            assert(ab =~= a);
            assert(spec_b64(a) + spec_b64(b) =~= spec_b64(a));
        } else {
            assert(ab.len() > 3);
            lemma_b64_append(a.skip(3), b);
            assert(ab.skip(3) =~= a.skip(3) + b);
            assert(spec_b64(a + b) =~= spec_b64(a) + spec_b64(b));
        }
    }
}

/// No alphabet character is the padding character.
proof fn lemma_enc6_not_pad(v: int)
    requires
        0 <= v < 64,
    ensures
        spec_enc6(v) != '=',
{
    assert(spec_enc6(v) as int != 61);
}

/// Decoding inverts encoding.
pub proof fn lemma_b64_round_trip(x: Seq<u8>)
    ensures
        spec_b64_decode(spec_b64(x)) == Some(x),
    decreases x.len(),
{
    let e = spec_b64(x);
    if x.len() == 0 {
    } else if x.len() == 1 {
        let b0 = x[0] as int;
        assert(spec_dec6(spec_enc6(b0 / 4)) == b0 / 4);
        assert(spec_dec6(spec_enc6((b0 % 4) * 16)) == (b0 % 4) * 16);
        assert(spec_b64_decode(e) =~~= Some(x));
    } else if x.len() == 2 {
        let b0 = x[0] as int;
        let b1 = x[1] as int;
        assert(spec_dec6(spec_enc6(b0 / 4)) == b0 / 4);
        assert(spec_dec6(spec_enc6((b0 % 4) * 16 + b1 / 16)) == (b0 % 4) * 16 + b1 / 16);
        assert(spec_dec6(spec_enc6((b1 % 16) * 4)) == (b1 % 16) * 4);
        assert(spec_b64_decode(e) =~~= Some(x));
    } else {
        let b0 = x[0] as int;
        let b1 = x[1] as int;
        let b2 = x[2] as int;
        lemma_b64_round_trip(x.skip(3));
        assert(e.skip(4) =~= spec_b64(x.skip(3)));
        assert(spec_dec6(spec_enc6(b0 / 4)) == b0 / 4);
        assert(spec_dec6(spec_enc6((b0 % 4) * 16 + b1 / 16)) == (b0 % 4) * 16 + b1 / 16);
        assert(spec_dec6(spec_enc6((b1 % 16) * 4 + b2 / 64)) == (b1 % 16) * 4 + b2 / 64);
        assert(spec_dec6(spec_enc6(b2 % 64)) == b2 % 64);
        lemma_enc6_not_pad((b1 % 16) * 4 + b2 / 64);
        lemma_enc6_not_pad(b2 % 64);
        assert(e[2] != '=' && e[3] != '=');
        assert(spec_b64_decode(e) =~~= Some(x));
    }
}

fn enc6(v: u8) -> (c: char)
    requires
        v < 64,
    ensures
        c == spec_enc6(v as int),
{
    if v < 26 {
        ((65 + v) as char)
    } else if v < 52 {
        ((71 + v) as char)
    } else if v < 62 {
        ((v - 4) as char)
    } else if v == 62 {
        '+'
    } else {
        '/'
    }
}

fn dec6(c: char) -> (r: i16)
    ensures
        r as int == spec_dec6(c),
{
    let v = c as u32;
    if 65 <= v && v < 91 {
        (v - 65) as i16
    } else if 97 <= v && v < 123 {
        (v - 71) as i16
    } else if 48 <= v && v < 58 {
        (v + 4) as i16
    } else if v == 43 {
        62
    } else if v == 47 {
        63
    } else {
        -1
    }
}

/// Base64 text of the given bytes, with `=` padding.
pub fn base64_encode(data: &Vec<u8>) -> (r: String)
    ensures
        r@ == spec_b64(data@),
{
    let mut out = String::new();
    let mut i: usize = 0;
    let n = data.len();
    while n - i >= 3
        invariant
            i <= n,
            n == data@.len(),
            i % 3 == 0,
            out@ == spec_b64(data@.take(i as int)),
        decreases n - i,
    {
        let b0 = data[i];
        let b1 = data[i + 1];
        let b2 = data[i + 2];
        crate::strutil::push_char(&mut out, enc6(b0 / 4));
        crate::strutil::push_char(&mut out, enc6((b0 % 4) * 16 + b1 / 16));
        crate::strutil::push_char(&mut out, enc6((b1 % 16) * 4 + b2 / 64));
        crate::strutil::push_char(&mut out, enc6(b2 % 64));
        proof {
            let pre = data@.take(i as int);
            let grp = seq![data@[i as int], data@[i + 1int], data@[i + 2int]];
            lemma_b64_append(pre, grp);
            assert(pre + grp =~= data@.take(i + 3int));
            assert(grp.skip(3) =~= Seq::<u8>::empty());
            assert(spec_b64(grp.skip(3)) == Seq::<char>::empty());
            assert(spec_b64(grp) == (seq![
                spec_enc6(grp[0] as int / 4),
                spec_enc6((grp[0] as int % 4) * 16 + grp[1] as int / 16),
                spec_enc6((grp[1] as int % 16) * 4 + grp[2] as int / 64),
                spec_enc6(grp[2] as int % 64),
            ] + spec_b64(grp.skip(3))));
            assert(spec_b64(grp) =~= seq![
                spec_enc6(grp[0] as int / 4),
                spec_enc6((grp[0] as int % 4) * 16 + grp[1] as int / 16),
                spec_enc6((grp[1] as int % 16) * 4 + grp[2] as int / 64),
                spec_enc6(grp[2] as int % 64),
            ]);
            assert(out@ =~= spec_b64(data@.take(i + 3int)));
        }
        i = i + 3;
    }
    if n - i == 1 {
        let b0 = data[i];
        crate::strutil::push_char(&mut out, enc6(b0 / 4));
        crate::strutil::push_char(&mut out, enc6((b0 % 4) * 16));
        crate::strutil::push_char(&mut out, '=');
        crate::strutil::push_char(&mut out, '=');
        proof {
            let pre = data@.take(i as int);
            let grp = seq![data@[i as int]];
            lemma_b64_append(pre, grp);
            assert(pre + grp =~= data@);
            assert(out@ =~= spec_b64(data@));
        }
    } else if n - i == 2 {
        let b0 = data[i];
        let b1 = data[i + 1];
        crate::strutil::push_char(&mut out, enc6(b0 / 4));
        crate::strutil::push_char(&mut out, enc6((b0 % 4) * 16 + b1 / 16));
        crate::strutil::push_char(&mut out, enc6((b1 % 16) * 4));
        crate::strutil::push_char(&mut out, '=');
        proof {
            let pre = data@.take(i as int);
            let grp = seq![data@[i as int], data@[i + 1int]];
            lemma_b64_append(pre, grp);
            assert(pre + grp =~= data@);
            assert(out@ =~= spec_b64(data@));
        }
    } else {
        proof {
            assert(data@.take(i as int) =~= data@);
        }
    }
    out
}

/// Decode padded base64 text; fails on any text that the encoding never
/// produces, except that non-canonical low bits before padding are accepted.
pub fn base64_decode(s: &str) -> (r: Result<Vec<u8>, ()>)
    ensures
        match r {
            Ok(v) => spec_b64_decode(s@) == Some(v@),
            Err(_) => spec_b64_decode(s@) is None,
        },
{
    let len = s.unicode_len();
    let mut out: Vec<u8> = Vec::new();
    let mut i: usize = 0;
    proof {
        assert(s@.skip(0) =~= s@);
        if spec_b64_decode(s@) is Some {
            assert(Seq::<u8>::empty() + spec_b64_decode(s@).unwrap() =~= spec_b64_decode(
                s@,
            ).unwrap());
        }
    }
    loop
        invariant
            i <= len,
            len == s@.len(),
            i % 4 == 0,
            spec_b64_decode(s@) == match spec_b64_decode(s@.skip(i as int)) {
                Some(rest) => Some(out@ + rest),
                None => None::<Seq<u8>>,
            },
        decreases len - i,
    {
        if i == len {
            proof {
                assert(s@.skip(len as int) =~= Seq::<char>::empty());
                assert(out@ + Seq::<u8>::empty() =~= out@);
            }
            return Ok(out);
        }
        if len - i < 4 {
            return Err(());
        }
        let c0 = dec6(s.get_char(i));
        let c1 = dec6(s.get_char(i + 1));
        let ch2 = s.get_char(i + 2);
        let ch3 = s.get_char(i + 3);
        if c0 < 0 || c1 < 0 {
            return Err(());
        }
        let v0 = c0 as u16;
        let v1 = c1 as u16;
        if i + 4 == len && ch2 == '=' {
            if ch3 == '=' {
                out.push((v0 * 4 + v1 / 16) as u8);
                proof {
                    assert(s@.skip(i as int).skip(4) =~= s@.skip(i + 4int));
                    assert(spec_b64_decode(s@) == Some(out@));
                    assert(s@.skip(len as int) =~= Seq::<char>::empty());
                }
                return Ok(out);
            } else {
                return Err(());
            }
        }
        let c2 = dec6(ch2);
        if i + 4 == len && ch3 == '=' {
            if c2 < 0 {
                return Err(());
            }
            let v2 = c2 as u16;
            out.push((v0 * 4 + v1 / 16) as u8);
            out.push(((v1 % 16) * 16 + v2 / 4) as u8);
            proof {
                assert(spec_b64_decode(s@) == Some(out@));
            }
            return Ok(out);
        }
        let c3 = dec6(ch3);
        if c2 < 0 || c3 < 0 {
            return Err(());
        }
        let v2 = c2 as u16;
        let v3 = c3 as u16;
        let ghost old_out = out@;
        out.push((v0 * 4 + v1 / 16) as u8);
        out.push(((v1 % 16) * 16 + v2 / 4) as u8);
        out.push(((v2 % 4) * 64 + v3) as u8);
        proof {
            let tail = s@.skip(i as int);
            assert(tail.len() >= 4);
            assert(!(tail.len() == 4 && tail[2] == '='));
            assert(!(tail.len() == 4 && tail[3] == '='));
            assert(tail.skip(4) =~= s@.skip(i + 4int));
            let grp = seq![
                (v0 * 4 + v1 / 16) as u8,
                ((v1 % 16) * 16 + v2 / 4) as u8,
                ((v2 % 4) * 64 + v3) as u8,
            ];
            assert(out@ =~= old_out + grp);
            assert forall|rest: Seq<u8>| spec_b64_decode(s@.skip(i + 4int)) == Some(rest)
                implies out@ + rest =~= old_out + (grp + rest) by {}
            if spec_b64_decode(s@.skip(i + 4int)) is Some {
                let rest = spec_b64_decode(s@.skip(i + 4int)).unwrap();
                assert(spec_b64_decode(tail) == Some(grp + rest));
                assert(out@ + rest =~= old_out + (grp + rest));
            }
        }
        i = i + 4;
    }
}

} // verus!
