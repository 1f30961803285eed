//! The mathematical model of the codec.
//!
//! The UTF-8 side builds on `vstd::utf8`: a scalar's canonical encoding is
//! [`encode_scalar`], and well-formedness of a byte sequence is
//! [`valid_first_scalar`]. This module adds the decode functions that the
//! executable conversions are specified against — each one returns, for every
//! input, either the decoded scalar with the number of bytes or units
//! consumed, or the exact error the conversion reports — together with the
//! UTF-16 model and the lemmas relating encoding and decoding.

use vstd::prelude::*;
use vstd::utf8::{
    decode_first_codepoint, decode_first_scalar, encode_scalar, encode_utf8,
    encode_utf8_first_scalar, is_continuation_byte, is_scalar, length_of_first_scalar,
    valid_first_scalar, valid_leading_and_continuation_bytes_first_codepoint,
};

use crate::error::{
    InvalidCodePoint, InvalidUtf16Slice, InvalidUtf16Tuple, InvalidUtf8, InvalidUtf8Array,
    InvalidUtf8FirstByte, InvalidUtf8Slice,
};

verus! {

/// The number of bytes in the UTF-8 encoding of the scalar `c`.
pub open spec fn spec_utf8_len(c: u32) -> int
    recommends
        is_scalar(c),
{
    if c < 0x80 {
        1
    } else if c < 0x800 {
        2
    } else if c < 0x10000 {
        3
    } else {
        4
    }
}

/// A sequence of up to four bytes, extended to exactly four by zero padding.
pub open spec fn pad4(s: Seq<u8>) -> Seq<u8>
    recommends
        s.len() <= 4,
{
    s + Seq::new((4 - s.len()) as nat, |i: int| 0u8)
}

/// How many continuation bytes the lead byte `b` announces, or why `b` cannot
/// lead a UTF-8 sequence.
pub open spec fn spec_extra_utf8_bytes(b: u8) -> Result<usize, InvalidUtf8FirstByte> {
    if b < 0x80 {
        Ok(0)
    } else if b < 0xC0 {
        Err(InvalidUtf8FirstByte::ContinuationByte)
    } else if b < 0xE0 {
        Ok(1)
    } else if b < 0xF0 {
        Ok(2)
    } else if b < 0xF8 {
        Ok(3)
    } else {
        Err(InvalidUtf8FirstByte::TooLongSequence)
    }
}

/// The number of leading one bits in `b`, minus one, saturated at zero: what
/// [`spec_extra_utf8_bytes`] answers, extended to arbitrary bytes without the
/// error cases.
pub open spec fn spec_extra_utf8_bytes_unchecked(b: u8) -> usize {
    if b < 0xC0 {
        0
    } else if b < 0xE0 {
        1
    } else if b < 0xF0 {
        2
    } else if b < 0xF8 {
        3
    } else if b < 0xFC {
        4
    } else if b < 0xFE {
        5
    } else if b < 0xFF {
        6
    } else {
        7
    }
}

/// True when a multi-byte sequence starting with lead byte `first` and
/// continuation byte `second` encodes a scalar that would fit in fewer bytes.
/// The first two bytes always decide this: the bytes after `second` contribute
/// too few bits to lift the scalar past the next length threshold.
pub open spec fn spec_overlong(first: u8, second: u8) -> bool
    recommends
        0xC0 <= first <= 0xF7,
{
    if first < 0xE0 {
        (first & 0x1F) < 2
    } else if first < 0xF0 {
        (first & 0x0F) == 0 && (second & 0x3F) < 0x20
    } else {
        (first & 0x07) == 0 && (second & 0x3F) < 0x10
    }
}

/// What decoding the start of the byte sequence `s` as one UTF-8 codepoint
/// returns: the scalar and the number of bytes consumed, or the error.
pub open spec fn spec_decode_utf8_slice(s: Seq<u8>) -> Result<(u32, usize), InvalidUtf8Slice> {
    if s.len() == 0 {
        Err(InvalidUtf8Slice::TooShort(1))
    } else {
        match spec_extra_utf8_bytes(s[0]) {
            Err(e) => Err(InvalidUtf8Slice::Utf8(InvalidUtf8::FirstByte(e))),
            Ok(extra) => if extra == 0 {
                Ok((s[0] as u32, 1))
            } else if s.len() < extra + 1 {
                Err(InvalidUtf8Slice::TooShort((extra + 1) as usize))
            } else if !is_continuation_byte(s[1]) {
                Err(InvalidUtf8Slice::Utf8(InvalidUtf8::NotAContinuationByte(1)))
            } else if extra >= 2 && !is_continuation_byte(s[2]) {
                Err(InvalidUtf8Slice::Utf8(InvalidUtf8::NotAContinuationByte(2)))
            } else if extra >= 3 && !is_continuation_byte(s[3]) {
                Err(InvalidUtf8Slice::Utf8(InvalidUtf8::NotAContinuationByte(3)))
            } else if spec_overlong(s[0], s[1]) {
                Err(InvalidUtf8Slice::Utf8(InvalidUtf8::OverLong))
            } else {
                let c = decode_first_codepoint(s);
                if 0xD800 <= c <= 0xDFFF {
                    Err(InvalidUtf8Slice::CodePoint(InvalidCodePoint::Utf16Reserved))
                } else if c > 0x10FFFF {
                    Err(InvalidUtf8Slice::CodePoint(InvalidCodePoint::TooHigh))
                } else {
                    Ok((c, (extra + 1) as usize))
                }
            },
        }
    }
}

/// What decoding a 4-byte buffer as one UTF-8 codepoint returns: the scalar,
/// or the error. Bytes after the encoded sequence are ignored.
pub open spec fn spec_decode_utf8_array(s: Seq<u8>) -> Result<u32, InvalidUtf8Array>
    recommends
        s.len() == 4,
{
    match spec_extra_utf8_bytes(s[0]) {
        Err(e) => Err(InvalidUtf8Array::Utf8(InvalidUtf8::FirstByte(e))),
        Ok(extra) => if extra == 0 {
            Ok(s[0] as u32)
        } else if !is_continuation_byte(s[1]) {
            Err(InvalidUtf8Array::Utf8(InvalidUtf8::NotAContinuationByte(1)))
        } else if extra >= 2 && !is_continuation_byte(s[2]) {
            Err(InvalidUtf8Array::Utf8(InvalidUtf8::NotAContinuationByte(2)))
        } else if extra >= 3 && !is_continuation_byte(s[3]) {
            Err(InvalidUtf8Array::Utf8(InvalidUtf8::NotAContinuationByte(3)))
        } else if spec_overlong(s[0], s[1]) {
            Err(InvalidUtf8Array::Utf8(InvalidUtf8::OverLong))
        } else {
            let c = decode_first_codepoint(s);
            if 0xD800 <= c <= 0xDFFF {
                Err(InvalidUtf8Array::CodePoint(InvalidCodePoint::Utf16Reserved))
            } else if c > 0x10FFFF {
                Err(InvalidUtf8Array::CodePoint(InvalidCodePoint::TooHigh))
            } else {
                Ok(c)
            }
        },
    }
}

/// What validating a raw 32-bit value as a scalar returns: the `char` with
/// that value, or the reason the value is not a legal scalar. This is the
/// single gate through which every decoded codepoint passes.
pub open spec fn spec_from_u32_detailed(c: u32) -> Result<char, InvalidCodePoint> {
    if 0xD800 <= c <= 0xDFFF {
        Err(InvalidCodePoint::Utf16Reserved)
    } else if c > 0x10FFFF {
        Err(InvalidCodePoint::TooHigh)
    } else {
        Ok(c as char)
    }
}

/// True for a UTF-16 high (leading) surrogate unit.
pub open spec fn is_high_surrogate(u: u16) -> bool {
    0xD800 <= u <= 0xDBFF
}

/// True for a UTF-16 low (trailing) surrogate unit.
pub open spec fn is_low_surrogate(u: u16) -> bool {
    0xDC00 <= u <= 0xDFFF
}

/// True for any UTF-16 surrogate unit.
pub open spec fn is_surrogate(u: u16) -> bool {
    0xD800 <= u <= 0xDFFF
}

/// The scalar encoded by a UTF-16 surrogate pair.
pub open spec fn spec_combine_surrogates(hi: u16, lo: u16) -> u32
    recommends
        is_high_surrogate(hi),
        is_low_surrogate(lo),
{
    (((hi as int) - 0xD800) * 0x400 + ((lo as int) - 0xDC00) + 0x10000) as u32
}

/// The UTF-16 encoding of the scalar `c`: one unit, or a surrogate pair.
pub open spec fn spec_encode_utf16_tuple(c: u32) -> (u16, Option<u16>)
    recommends
        is_scalar(c),
{
    if c < 0x10000 {
        (c as u16, None)
    } else {
        (
            (0xD800 + ((c as int) - 0x10000) / 0x400) as u16,
            Some((0xDC00 + ((c as int) - 0x10000) % 0x400) as u16),
        )
    }
}

/// The UTF-16 encoding of the scalar `c` as a sequence of one or two units.
pub open spec fn spec_utf16_units(c: u32) -> Seq<u16>
    recommends
        is_scalar(c),
{
    let (first, second) = spec_encode_utf16_tuple(c);
    match second {
        None => seq![first],
        Some(s) => seq![first, s],
    }
}

/// What decoding the start of the unit sequence `s` as one UTF-16 codepoint
/// returns: the scalar and the number of units consumed, or the error.
pub open spec fn spec_decode_utf16_slice(s: Seq<u16>) -> Result<(u32, usize), InvalidUtf16Slice> {
    if s.len() == 0 {
        Err(InvalidUtf16Slice::EmptySlice)
    } else if is_low_surrogate(s[0]) {
        Err(InvalidUtf16Slice::FirstLowSurrogate)
    } else if !is_high_surrogate(s[0]) {
        Ok((s[0] as u32, 1))
    } else if s.len() < 2 {
        Err(InvalidUtf16Slice::MissingSecond)
    } else if !is_low_surrogate(s[1]) {
        Err(InvalidUtf16Slice::SecondNotLowSurrogate)
    } else {
        Ok((spec_combine_surrogates(s[0], s[1]), 2))
    }
}

/// What decoding a `(unit, Option<unit>)` pair as one UTF-16 codepoint
/// returns: the scalar, or the error.
pub open spec fn spec_decode_utf16_tuple(t: (u16, Option<u16>)) -> Result<u32, InvalidUtf16Tuple> {
    if is_low_surrogate(t.0) {
        Err(InvalidUtf16Tuple::FirstIsTrailingSurrogate)
    } else if is_high_surrogate(t.0) {
        match t.1 {
            None => Err(InvalidUtf16Tuple::MissingSecond),
            Some(lo) => if is_low_surrogate(lo) {
                Ok(spec_combine_surrogates(t.0, lo))
            } else {
                Err(InvalidUtf16Tuple::InvalidSecond)
            },
        }
    } else {
        match t.1 {
            None => Ok(t.0 as u32),
            Some(_) => Err(InvalidUtf16Tuple::SuperfluousSecond),
        }
    }
}

/// The canonical encoding of a scalar is well formed: its length follows the
/// standard length rule, its lead byte announces exactly that length, none of
/// it is overlong, and decoding it yields the scalar back.
pub proof fn lemma_encode_scalar_facts(c: u32)
    requires
        is_scalar(c),
    ensures
        ({
            let e = encode_scalar(c);
            &&& e.len() == spec_utf8_len(c)
            &&& valid_first_scalar(e)
            &&& length_of_first_scalar(e) == e.len()
            &&& decode_first_scalar(e) == c
            &&& spec_extra_utf8_bytes(e[0]) == Ok::<usize, InvalidUtf8FirstByte>(
                (e.len() - 1) as usize,
            )
            &&& e.len() >= 2 ==> !spec_overlong(e[0], e[1])
        }),
{
    let ch = c as char;
    let chars = seq![ch];
    let e = encode_scalar(c);
    assert(chars[0] == ch && (ch as u32) == c);
    assert(chars.drop_first() =~= Seq::<char>::empty());
    assert(encode_utf8(chars.drop_first()) =~= Seq::<u8>::empty());
    assert(encode_utf8(chars) =~= e);
    encode_utf8_first_scalar(chars);
    if 0x80 <= c < 0x800 {
        assert(!((0xC0u8 | (((c >> 6) & 0x1F) as u8)) & 0x1F < 2)) by (bit_vector)
            requires
                0x80 <= c < 0x800,
        ;
    } else if 0x800 <= c < 0x10000 {
        assert(!(((0xE0u8 | (((c >> 12) & 0x0F) as u8)) & 0x0F) == 0 && ((0x80u8 | (((c >> 6)
            & 0x3F) as u8)) & 0x3F) < 0x20)) by (bit_vector)
            requires
                0x800 <= c < 0x10000,
        ;
    } else if 0x10000 <= c {
        assert(!(((0xF0u8 | (((c >> 18) & 0x7) as u8)) & 0x07) == 0 && ((0x80u8 | (((c >> 12)
            & 0x3F) as u8)) & 0x3F) < 0x10)) by (bit_vector)
            requires
                0x10000 <= c <= 0x10FFFF,
        ;
    }
}

/// Decoding a byte sequence that starts with the canonical encoding of the
/// scalar `c` succeeds, returns `c`, and consumes exactly the encoding.
pub proof fn lemma_decode_utf8_prefix(s: Seq<u8>, c: u32)
    requires
        is_scalar(c),
        encode_scalar(c).is_prefix_of(s),
    ensures
        spec_decode_utf8_slice(s) == Ok::<(u32, usize), InvalidUtf8Slice>(
            (c, encode_scalar(c).len() as usize),
        ),
{
    lemma_encode_scalar_facts(c);
    let e = encode_scalar(c);
    let n = e.len() as int;
    let pre = s.subrange(0, n);
    assert(e == pre);
    assert(pre[0] == s[0]);
    if n >= 2 {
        assert(pre[1] == s[1]);
    }
    if n >= 3 {
        assert(pre[2] == s[2]);
    }
    if n >= 4 {
        assert(pre[3] == s[3]);
    }
    if c < 0x80 {
        assert((((c & 0x7F) as u8) as u32) == c) by (bit_vector)
            requires
                c < 0x80,
        ;
    }
}

/// Decoding is the inverse of encoding: when decoding a byte sequence
/// succeeds, the bytes it consumed are exactly the canonical encoding of the
/// scalar it returned.
pub proof fn lemma_decode_utf8_canonical(s: Seq<u8>, c: u32, n: usize)
    requires
        spec_decode_utf8_slice(s) == Ok::<(u32, usize), InvalidUtf8Slice>((c, n)),
    ensures
        is_scalar(c),
        n == spec_utf8_len(c),
        n <= s.len(),
        encode_scalar(c) =~= s.subrange(0, n as int),
{
    let b0 = s[0];
    if n == 1 {
        assert((((b0 as u32) & 0x7F) as u8) == b0 && (b0 as u32) <= 0x7F) by (bit_vector)
            requires
                b0 < 0x80,
        ;
    } else if n == 2 {
        let b1 = s[1];
        assert({
            &&& 0x80 <= ((((b0 & 0x1F) as u32) << 6) | ((b1 & 0x3F) as u32)) <= 0x7FF
            &&& (0xC0u8 | ((((((b0 & 0x1F) as u32) << 6) | ((b1 & 0x3F) as u32)) >> 6)
                & 0x1F) as u8) == b0
            &&& (0x80u8 | (((((b0 & 0x1F) as u32) << 6) | ((b1 & 0x3F) as u32))
                & 0x3F) as u8) == b1
        }) by (bit_vector)
            requires
                0xC0 <= b0 < 0xE0,
                0x80 <= b1 <= 0xBF,
                !((b0 & 0x1F) < 2),
        ;
    } else if n == 3 {
        let b1 = s[1];
        let b2 = s[2];
        assert({
            let cv = (((b0 & 0x0F) as u32) << 12) | (((b1 & 0x3F) as u32) << 6) | ((b2
                & 0x3F) as u32);
            &&& 0x800 <= cv <= 0xFFFF
            &&& (0xE0u8 | (((cv >> 12) & 0x0F) as u8)) == b0
            &&& (0x80u8 | (((cv >> 6) & 0x3F) as u8)) == b1
            &&& (0x80u8 | ((cv & 0x3F) as u8)) == b2
        }) by (bit_vector)
            requires
                0xE0 <= b0 < 0xF0,
                0x80 <= b1 <= 0xBF,
                0x80 <= b2 <= 0xBF,
                !((b0 & 0x0F) == 0 && (b1 & 0x3F) < 0x20),
        ;
    } else {
        let b1 = s[1];
        let b2 = s[2];
        let b3 = s[3];
        assert({
            let cv = (((b0 & 0x07) as u32) << 18) | (((b1 & 0x3F) as u32) << 12) | (((b2
                & 0x3F) as u32) << 6) | ((b3 & 0x3F) as u32);
            &&& 0x10000 <= cv
            &&& (0xF0u8 | (((cv >> 18) & 0x7) as u8)) == b0
            &&& (0x80u8 | (((cv >> 12) & 0x3F) as u8)) == b1
            &&& (0x80u8 | (((cv >> 6) & 0x3F) as u8)) == b2
            &&& (0x80u8 | ((cv & 0x3F) as u8)) == b3
        }) by (bit_vector)
            requires
                0xF0 <= b0 < 0xF8,
                0x80 <= b1 <= 0xBF,
                0x80 <= b2 <= 0xBF,
                0x80 <= b3 <= 0xBF,
                !((b0 & 0x07) == 0 && (b1 & 0x3F) < 0x10),
        ;
    }
}

/// The zero-padded canonical encoding of a scalar keeps all the properties
/// of the encoding itself: the padding bytes are never read when decoding.
pub proof fn lemma_pad4_decode(c: u32)
    requires
        is_scalar(c),
    ensures
        ({
            let e = encode_scalar(c);
            let p = pad4(e);
            &&& p.len() == 4
            &&& valid_first_scalar(p)
            &&& length_of_first_scalar(p) == e.len()
            &&& decode_first_scalar(p) == c
            &&& forall|i: int| 0 <= i < e.len() ==> p[i] == #[trigger] e[i]
            &&& forall|i: int| e.len() <= i < 4 ==> #[trigger] p[i] == 0
        }),
{
    lemma_encode_scalar_facts(c);
    let e = encode_scalar(c);
    let p = pad4(e);
    assert(p[0] == e[0]);
    if e.len() >= 2 {
        assert(p[1] == e[1]);
    }
    if e.len() >= 3 {
        assert(p[2] == e[2]);
    }
    if e.len() >= 4 {
        assert(p[3] == e[3]);
    }
    assert(forall|i: int| e.len() <= i < 4 ==> #[trigger] p[i] == 0);
}

/// A sequence of characters never encodes to fewer bytes than its length:
/// every scalar takes at least one byte.
pub proof fn lemma_encode_utf8_len_lb(chars: Seq<char>)
    ensures
        encode_utf8(chars).len() >= chars.len(),
    decreases chars.len(),
{
    if chars.len() > 0 {
        lemma_encode_utf8_len_lb(chars.drop_first());
    }
}

/// The codepoint packed into a well-formed lead byte and its continuation
/// bytes is bounded by the capacity of the encoding's length.
pub proof fn lemma_codepoint_width_bound(s: Seq<u8>)
    requires
        valid_leading_and_continuation_bytes_first_codepoint(s),
    ensures
        decode_first_codepoint(s) <= 0x1FFFFF,
        length_of_first_scalar(s) <= 3 ==> decode_first_codepoint(s) <= 0xFFFF,
{
    let b0 = s[0];
    if b0 < 0x80 {
        assert(((b0 & 0x7F) as u32) <= 0x7F) by (bit_vector);
    } else if b0 < 0xE0 {
        let b1 = s[1];
        assert(((((b0 & 0x1F) as u32) << 6) | ((b1 & 0x3F) as u32)) <= 0x7FF) by (bit_vector);
    } else if b0 < 0xF0 {
        let b1 = s[1];
        let b2 = s[2];
        assert(((((b0 & 0x0F) as u32) << 12) | (((b1 & 0x3F) as u32) << 6) | ((b2
            & 0x3F) as u32)) <= 0xFFFF) by (bit_vector);
    } else {
        let b1 = s[1];
        let b2 = s[2];
        let b3 = s[3];
        assert(((((b0 & 0x07) as u32) << 18) | (((b1 & 0x3F) as u32) << 12) | (((b2
            & 0x3F) as u32) << 6) | ((b3 & 0x3F) as u32)) <= 0x1FFFFF) by (bit_vector);
    }
}

/// The UTF-16 encoding of a scalar is well formed: a scalar below 0x10000
/// becomes the single unit with its value, and any other scalar becomes a
/// high surrogate followed by a low surrogate that combine back to it.
pub proof fn lemma_encode_utf16_facts(c: u32)
    requires
        is_scalar(c),
    ensures
        ({
            let (first, second) = spec_encode_utf16_tuple(c);
            &&& c < 0x10000 ==> second is None && first == c as u16 && !is_surrogate(first)
            &&& c >= 0x10000 ==> (second matches Some(lo) && is_high_surrogate(first)
                && is_low_surrogate(lo) && spec_combine_surrogates(first, lo) == c)
        }),
{
    if c >= 0x10000 {
        let v = (c as int) - 0x10000;
        vstd::arithmetic::div_mod::lemma_fundamental_div_mod(v, 0x400);
        vstd::arithmetic::div_mod::lemma_div_is_ordered(v, 0xFFFFF, 0x400);
    }
}

/// Decoding a UTF-16 tuple is the inverse of encoding: when it succeeds, the
/// tuple is exactly the canonical encoding of the scalar it returned.
pub proof fn lemma_decode_utf16_tuple_canonical(t: (u16, Option<u16>), c: u32)
    requires
        spec_decode_utf16_tuple(t) == Ok::<u32, InvalidUtf16Tuple>(c),
    ensures
        is_scalar(c),
        spec_encode_utf16_tuple(c) == t,
{
    if is_high_surrogate(t.0) {
        let lo = t.1->Some_0;
        let q = (t.0 as int) - 0xD800;
        let r = (lo as int) - 0xDC00;
        let v = (c as int) - 0x10000;
        assert(v == q * 0x400 + r);
        vstd::arithmetic::div_mod::lemma_fundamental_div_mod_converse_div(v, 0x400, q, r);
        vstd::arithmetic::div_mod::lemma_fundamental_div_mod_converse_mod(v, 0x400, q, r);
    }
}

/// Decoding a unit sequence that starts with the canonical encoding of the
/// scalar `c` succeeds, returns `c`, and consumes exactly the encoding.
pub proof fn lemma_decode_utf16_prefix(s: Seq<u16>, c: u32)
    requires
        is_scalar(c),
        spec_utf16_units(c).is_prefix_of(s),
    ensures
        spec_decode_utf16_slice(s) == Ok::<(u32, usize), InvalidUtf16Slice>(
            (c, spec_utf16_units(c).len() as usize),
        ),
{
    lemma_encode_utf16_facts(c);
    let u = spec_utf16_units(c);
    let pre = s.subrange(0, u.len() as int);
    assert(u == pre);
    assert(pre[0] == s[0]);
    if u.len() >= 2 {
        assert(pre[1] == s[1]);
    }
}

/// Decoding a unit sequence is the inverse of encoding: when it succeeds, the
/// units it consumed are exactly the canonical encoding of the scalar it
/// returned.
pub proof fn lemma_decode_utf16_slice_canonical(s: Seq<u16>, c: u32, n: usize)
    requires
        spec_decode_utf16_slice(s) == Ok::<(u32, usize), InvalidUtf16Slice>((c, n)),
    ensures
        is_scalar(c),
        n <= s.len(),
        spec_utf16_units(c) =~= s.subrange(0, n as int),
{
    if is_high_surrogate(s[0]) {
        lemma_decode_utf16_tuple_canonical((s[0], Some(s[1])), c);
    } else {
        lemma_decode_utf16_tuple_canonical((s[0], None), c);
    }
}

} // verus!
