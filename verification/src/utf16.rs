//! UTF-16 text as the window system takes and gives it: encoding with a terminating
//! zero, and lossy decoding.
use vstd::prelude::*;
use crate::text::{chars_of, string_from_chars};

verus! {

/// A Unicode scalar value: a code point that is not a surrogate.
pub open spec fn is_scalar_value(u: u32) -> bool {
    u <= 0xD7FF || (0xE000 <= u <= 0x10FFFF)
}

/// `char::from_u32`: the character whose scalar value is `u`, or `None` when `u` is a
/// surrogate code point or above 0x10FFFF.
#[verifier::external_body]
fn char_from_u32(u: u32) -> (r: Option<char>)
    ensures
        is_scalar_value(u) ==> r == Some(u as char),
        !is_scalar_value(u) ==> r is None,
{
    char::from_u32(u)
}

pub open spec fn is_high_surrogate(u: u16) -> bool {
    0xD800 <= u <= 0xDBFF
}

pub open spec fn is_low_surrogate(u: u16) -> bool {
    0xDC00 <= u <= 0xDFFF
}

/// The UTF-16 code units of one character: itself below 0x10000, else a surrogate pair.
pub open spec fn utf16_units(c: char) -> Seq<u16> {
    let u = c as u32;
    if u < 0x10000 {
        seq![u as u16]
    } else {
        let v = (u - 0x10000) as int;
        seq![(0xD800 + v / 0x400) as u16, (0xDC00 + v % 0x400) as u16]
    }
}

/// The UTF-16 encoding of a text.
pub open spec fn encode_utf16(s: Seq<char>) -> Seq<u16>
    decreases s.len(),
{
    if s.len() == 0 {
        Seq::empty()
    } else {
        utf16_units(s[0]) + encode_utf16(s.drop_first())
    }
}

/// Decodes UTF-16, each unpaired surrogate giving U+FFFD (`String::from_utf16_lossy`).
pub open spec fn decode_utf16_lossy(u: Seq<u16>) -> Seq<char>
    decreases u.len(),
{
    if u.len() == 0 {
        Seq::empty()
    } else if u.len() >= 2 && is_high_surrogate(u[0]) && is_low_surrogate(u[1]) {
        seq![
            ((0x10000 + (u[0] - 0xD800) * 0x400 + (u[1] - 0xDC00)) as u32) as char,
        ] + decode_utf16_lossy(u.skip(2))
    } else if 0xD800 <= u[0] <= 0xDFFF {
        seq!['\u{FFFD}'] + decode_utf16_lossy(u.drop_first())
    } else {
        seq![(u[0] as u32) as char] + decode_utf16_lossy(u.drop_first())
    }
}

/// A text as zero-terminated UTF-16, as the window system takes it.
pub fn wz(s: &str) -> (r: Vec<u16>)
    ensures
        r@ == encode_utf16(s@).push(0u16),
{
    let v = chars_of(s);
    let mut out: Vec<u16> = Vec::new();
    assert(v@.skip(0) =~= v@);
    assert(out@ + encode_utf16(v@) =~= encode_utf16(v@));
    for i in 0..v.len()
        invariant
            v@ == s@,
            encode_utf16(v@) == out@ + encode_utf16(v@.skip(i as int)),
    {
        let c = v[i];
        let u = c as u32;
        let ghost before = out@;
        assert(v@.skip(i as int).drop_first() =~= v@.skip(i + 1));
        assert(v@.skip(i as int)[0] == c);
        if u < 0x10000 {
            out.push(u as u16);
        } else {
            proof {
                vstd::utf8::char_is_scalar(c);
            }
            let w = u - 0x10000;
            out.push((0xD800 + w / 0x400) as u16);
            out.push((0xDC00 + w % 0x400) as u16);
        }
        assert(out@ =~= before + utf16_units(c));
        assert(encode_utf16(v@) =~= out@ + encode_utf16(v@.skip(i + 1)));
    }
    assert(v@.skip(v.len() as int) =~= Seq::<char>::empty());
    let ghost enc = out@;
    out.push(0);
    assert(encode_utf16(v@) =~= enc);
    out
}

/// Decodes UTF-16 text, each unpaired surrogate giving U+FFFD.
pub fn from_utf16_lossy(u: &Vec<u16>) -> (s: String)
    ensures
        s@ == decode_utf16_lossy(u@),
{
    let mut out: Vec<char> = Vec::new();
    let mut i: usize = 0;
    assert(u@.skip(0) =~= u@);
    assert(out@ + decode_utf16_lossy(u@) =~= decode_utf16_lossy(u@));
    while i < u.len()
        invariant
            i <= u.len(),
            decode_utf16_lossy(u@) == out@ + decode_utf16_lossy(u@.skip(i as int)),
        decreases u.len() - i,
    {
        let a = u[i];
        let ghost rest = u@.skip(i as int);
        assert(rest[0] == a);
        if 0xD800 <= a && a <= 0xDBFF && i + 1 < u.len() && 0xDC00 <= u[i + 1] && u[i + 1]
            <= 0xDFFF {
            let b = u[i + 1];
            assert(rest[1] == b);
            assert(rest.skip(2) =~= u@.skip(i + 2));
            let cp: u32 = 0x10000 + (a as u32 - 0xD800) * 0x400 + (b as u32 - 0xDC00);
            let c = char_from_u32(cp);
            match c {
                Some(c) => out.push(c),
                None => {
                    assert(false);
                },
            }
            assert(decode_utf16_lossy(u@) =~= out@ + decode_utf16_lossy(u@.skip(i + 2)));
            i = i + 2;
        } else {
            assert(rest.drop_first() =~= u@.skip(i + 1));
            if 0xD800 <= a && a <= 0xDFFF {
                out.push('\u{FFFD}');
            } else {
                match char_from_u32(a as u32) {
                    Some(c) => out.push(c),
                    None => {
                        assert(false);
                    },
                }
            }
            assert(decode_utf16_lossy(u@) =~= out@ + decode_utf16_lossy(u@.skip(i + 1)));
            i = i + 1;
        }
    }
    assert(u@.skip(i as int) =~= Seq::<u16>::empty());
    assert(out@ + Seq::<char>::empty() =~= out@);
    string_from_chars(&out)
}

/// Decoding the UTF-16 encoding of a text gives the text back.
pub proof fn lemma_decode_encode(s: Seq<char>)
    ensures
        decode_utf16_lossy(encode_utf16(s)) == s,
    decreases s.len(),
{
    if s.len() > 0 {
        lemma_decode_encode(s.drop_first());
        let c = s[0];
        let e = encode_utf16(s.drop_first());
        let whole = encode_utf16(s);
        let u = c as u32;
        vstd::utf8::char_is_scalar(c);
        vstd::utf8::char_u32_cast(c, u);
        if u < 0x10000 {
            assert(whole == seq![u as u16] + e);
            assert(!(0xD800 <= u <= 0xDFFF));
            assert(whole.drop_first() =~= e);
            assert(((u as u16) as u32) == u);
        } else {
            let v = (u - 0x10000) as int;
            let hi = (0xD800 + v / 0x400) as u16;
            let lo = (0xDC00 + v % 0x400) as u16;
            assert(whole == seq![hi, lo] + e);
            assert(whole.skip(2) =~= e);
            assert(0 <= v / 0x400 < 0x400);
            assert(is_high_surrogate(hi));
            assert(is_low_surrogate(lo));
            assert(0x10000 + (hi - 0xD800) * 0x400 + (lo - 0xDC00) == u);
        }
        assert(seq![c] + s.drop_first() =~= s);
    }
}

/// The units before the first zero unit (all of them when there is none), as a reader of
/// zero-terminated text takes them.
pub open spec fn until_zero(u: Seq<u16>) -> Seq<u16>
    decreases u.len(),
{
    if u.len() == 0 {
        Seq::empty()
    } else if u[0] == 0 {
        Seq::empty()
    } else {
        seq![u[0]] + until_zero(u.drop_first())
    }
}

proof fn lemma_encode_no_zero(s: Seq<char>)
    requires
        forall|i: int| 0 <= i < s.len() ==> s[i] != '\0',
    ensures
        forall|i: int| 0 <= i < encode_utf16(s).len() ==> encode_utf16(s)[i] != 0,
    decreases s.len(),
{
    if s.len() > 0 {
        lemma_encode_no_zero(s.drop_first());
        let c = s[0];
        let u = c as u32;
        vstd::utf8::char_is_scalar(c);
        vstd::utf8::char_u32_cast(c, u);
        assert(u != 0);
        let h = utf16_units(c);
        let e = encode_utf16(s.drop_first());
        assert forall|i: int| 0 <= i < h.len() implies h[i] != 0 by {
            if u < 0x10000 {
                assert(((u as u16) as u32) == u);
            }
        }
        assert forall|i: int| 0 <= i < encode_utf16(s).len() implies encode_utf16(s)[i] != 0 by {
            if i >= h.len() {
                assert(encode_utf16(s)[i] == e[i - h.len()]);
            } else {
                assert(encode_utf16(s)[i] == h[i]);
            }
        }
    }
}

proof fn lemma_until_zero_push(a: Seq<u16>)
    requires
        forall|i: int| 0 <= i < a.len() ==> a[i] != 0,
    ensures
        until_zero(a.push(0u16)) == a,
    decreases a.len(),
{
    if a.len() == 0 {
        assert(a.push(0u16)[0] == 0);
    } else {
        assert(a.push(0u16).drop_first() =~= a.drop_first().push(0u16));
        lemma_until_zero_push(a.drop_first());
        assert(seq![a[0]] + a.drop_first() =~= a);
    }
}

/// A text without NUL characters, written by `wz` and read back up to the first zero unit
/// and decoded, is the same text: its encoding holds no zero unit, so the terminator is
/// the first zero.
pub proof fn lemma_zero_terminated_roundtrip(s: Seq<char>)
    requires
        forall|i: int| 0 <= i < s.len() ==> s[i] != '\0',
    ensures
        forall|i: int| 0 <= i < encode_utf16(s).len() ==> encode_utf16(s)[i] != 0,
        until_zero(encode_utf16(s).push(0u16)) == encode_utf16(s),
        decode_utf16_lossy(until_zero(encode_utf16(s).push(0u16))) == s,
{
    lemma_encode_no_zero(s);
    lemma_until_zero_push(encode_utf16(s));
    lemma_decode_encode(s);
}

} // verus!
