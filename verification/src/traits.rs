//! Extension traits for the integer types that carry encoded text: `u8` as a
//! UTF-8 byte and `u16` as a UTF-16 unit, together with the overlong-sequence
//! check they feed into.

use vstd::prelude::*;
use vstd::utf8::{
    char_is_scalar, char_u32_cast, decode_first_codepoint, decode_first_scalar, is_scalar,
    length_of_first_scalar, valid_first_scalar,
    valid_leading_and_continuation_bytes_first_codepoint,
};

use crate::codec::{
    is_high_surrogate, is_low_surrogate, lemma_codepoint_width_bound, spec_decode_utf16_slice,
    spec_decode_utf16_tuple, spec_decode_utf8_array, spec_decode_utf8_slice,
    spec_encode_utf16_tuple, spec_extra_utf8_bytes, spec_extra_utf8_bytes_unchecked,
    spec_from_u32_detailed, spec_overlong,
};
use crate::error::{
    InvalidCodePoint, InvalidUtf16Slice, InvalidUtf16Tuple, InvalidUtf8, InvalidUtf8Array,
    InvalidUtf8FirstByte, InvalidUtf8Slice,
};

verus! {

/// Relies on `char::from_u32`: by its documentation it returns the `char`
/// with the given value exactly when the value is at most 0x10FFFF and not in
/// the surrogate range 0xD800..=0xDFFF — the values `is_scalar` admits — and
/// `None` otherwise.
pub assume_specification[ char::from_u32 ](v: u32) -> (r: Option<char>)
    ensures
        r is Some <==> is_scalar(v),
        r matches Some(c) ==> (c as u32) == v,
;

/// Methods for working with `u8`s as UTF-8 bytes.
pub trait U8UtfExt {
    /// How many more bytes are needed to complete the codepoint this byte
    /// starts, or why the byte cannot start one.
    fn extra_utf8_bytes(self) -> Result<usize, InvalidUtf8FirstByte>;

    /// How many more bytes are needed to complete the codepoint this byte
    /// starts, assuming it is a valid lead byte: the number of leading one
    /// bits minus one, saturated at zero, with no error check.
    fn extra_utf8_bytes_unchecked(self) -> usize;
}

impl U8UtfExt for u8 {
    fn extra_utf8_bytes(self) -> (r: Result<usize, InvalidUtf8FirstByte>)
        ensures
            r == spec_extra_utf8_bytes(self),
    {
        if self < 0x80 {
            Ok(0)
        } else if self < 0xC0 {
            Err(InvalidUtf8FirstByte::ContinuationByte)
        } else if self < 0xE0 {
            Ok(1)
        } else if self < 0xF0 {
            Ok(2)
        } else if self < 0xF8 {
            Ok(3)
        } else {
            Err(InvalidUtf8FirstByte::TooLongSequence)
        }
    }

    fn extra_utf8_bytes_unchecked(self) -> (r: usize)
        ensures
            r == spec_extra_utf8_bytes_unchecked(self),
            spec_extra_utf8_bytes(self) matches Ok(n) ==> r == n,
    {
        if self < 0xC0 {
            0
        } else if self < 0xE0 {
            1
        } else if self < 0xF0 {
            2
        } else if self < 0xF8 {
            3
        } else if self < 0xFC {
            4
        } else if self < 0xFE {
            5
        } else if self < 0xFF {
            6
        } else {
            7
        }
    }
}

/// Methods for working with `u16`s as UTF-16 units.
pub trait U16UtfExt {
    /// Whether this unit needs another unit to complete a codepoint:
    /// `Some(true)` for a high surrogate, `None` for a low surrogate, which
    /// cannot lead, and `Some(false)` for a unit that stands alone.
    fn utf16_needs_extra_unit(self) -> Option<bool>;

    /// True when this unit is a high (leading) surrogate.
    fn utf16_is_leading_surrogate(self) -> bool;
}

impl U16UtfExt for u16 {
    fn utf16_needs_extra_unit(self) -> (r: Option<bool>)
        ensures
            r == (if is_low_surrogate(self) {
                Option::<bool>::None
            } else {
                Some(is_high_surrogate(self))
            }),
    {
        if 0xDC00 <= self && self <= 0xDFFF {
            None
        } else if 0xD800 <= self && self <= 0xDBFF {
            Some(true)
        } else {
            Some(false)
        }
    }

    fn utf16_is_leading_surrogate(self) -> (r: bool)
        ensures
            r == is_high_surrogate(self),
    {
        let r = (self & 0xFC00) == 0xD800;
        proof {
            assert(((self & 0xFC00) == 0xD800) == (0xD800 <= self <= 0xDBFF)) by (bit_vector);
        }
        r
    }
}

/// Extension trait for `char` with the conversions to and from UTF-8 and
/// UTF-16. The contracts are given on the implementation for `char`, the one
/// implementation this crate provides.
pub trait CharExt: Sized {
    /// Get the UTF-8 representation of this codepoint.
    fn to_utf8(self) -> crate::utf8_char::Utf8Char;

    /// Get the UTF-16 representation of this codepoint.
    fn to_utf16(self) -> crate::utf16_char::Utf16Char;

    /// Convert this codepoint to UTF-8 and write it to the start of `dst`,
    /// returning the number of bytes written. `None` is returned if the
    /// buffer is too small; the buffer is then left unmodified. A buffer of
    /// length four is always large enough.
    fn to_utf8_slice(self, dst: &mut [u8]) -> Option<usize>;

    /// Convert this codepoint to UTF-8: a left-aligned 4-byte array whose
    /// unused trailing bytes are zero, and the number of bytes used.
    fn to_utf8_array(self) -> ([u8; 4], usize);

    /// Convert this codepoint to UTF-16. The second unit is `Some` exactly
    /// when a surrogate pair is required.
    fn to_utf16_tuple(self) -> (u16, Option<u16>);

    /// Convert this codepoint to UTF-16 and write it to the start of `dst`,
    /// returning the number of units written. `None` is returned if the
    /// buffer is too small; the buffer is then left unmodified. A buffer of
    /// length two is always large enough.
    fn to_utf16_slice(self, dst: &mut [u16]) -> Option<usize>;

    /// Decode a codepoint from the start of a slice interpreted as UTF-8,
    /// and also return how many bytes were needed.
    fn from_utf8_slice(src: &[u8]) -> Result<(Self, usize), InvalidUtf8Slice>;

    /// Decode a 4-byte buffer as returned from `to_utf8_array`. Bytes after
    /// the encoded sequence are ignored.
    fn from_utf8_array(utf8: [u8; 4]) -> Result<Self, InvalidUtf8Array>;

    /// Decode one codepoint from an exact UTF-8 sequence that is already
    /// known to be valid; the precondition states that knowledge and is the
    /// caller's obligation.
    fn from_utf8_exact_slice_unchecked(src: &[u8]) -> Self
        requires
            valid_first_scalar(src@),
            src@.len() == length_of_first_scalar(src@),
    ;

    /// Decode a codepoint from the start of a slice of UTF-16 units, and
    /// also return how many units were needed.
    fn from_utf16_slice(src: &[u16]) -> Result<(Self, usize), InvalidUtf16Slice>;

    /// Decode a UTF-16 pair as returned from `to_utf16_tuple`.
    fn from_utf16_tuple(utf16: (u16, Option<u16>)) -> Result<Self, InvalidUtf16Tuple>;

    /// Decode a UTF-16 pair that is already known to be valid; the
    /// precondition states that knowledge and is the caller's obligation.
    fn from_utf16_tuple_unchecked(utf16: (u16, Option<u16>)) -> Self
        requires
            spec_decode_utf16_tuple(utf16) is Ok,
    ;

    /// Validate a raw 32-bit value as a scalar: reject the surrogate range
    /// and values above the maximum codepoint, and accept everything else.
    fn from_u32_detailed(c: u32) -> Result<Self, InvalidCodePoint>;
}

/// Decode the data bits of the first codepoint in `src`, whose lead and
/// continuation bytes have already been checked.
pub(crate) fn decode_codepoint(src: &[u8]) -> (r: u32)
    requires
        valid_leading_and_continuation_bytes_first_codepoint(src@),
    ensures
        r == decode_first_codepoint(src@),
{
    let b0 = src[0];
    if b0 < 0x80 {
        (b0 & 0x7F) as u32
    } else if b0 < 0xE0 {
        (((b0 & 0x1F) as u32) << 6) | ((src[1] & 0x3F) as u32)
    } else if b0 < 0xF0 {
        (((b0 & 0x0F) as u32) << 12) | (((src[1] & 0x3F) as u32) << 6) | ((src[2] & 0x3F) as u32)
    } else {
        (((b0 & 0x07) as u32) << 18) | (((src[1] & 0x3F) as u32) << 12) | (((src[2]
            & 0x3F) as u32) << 6) | ((src[3] & 0x3F) as u32)
    }
}

impl CharExt for char {
    fn to_utf8(self) -> (r: crate::utf8_char::Utf8Char)
        ensures
            r.wf(),
            r.spec_scalar() == self as u32,
            r@ == crate::codec::pad4(vstd::utf8::encode_scalar(self as u32)),
    {
        crate::utf8_char::Utf8Char::from_char(self)
    }

    fn to_utf16(self) -> (r: crate::utf16_char::Utf16Char)
        ensures
            r.wf(),
            r.spec_scalar() == self as u32,
            r@ == crate::codec::spec_utf16_units(self as u32),
    {
        crate::utf16_char::Utf16Char::from_char(self)
    }

    fn to_utf8_slice(self, dst: &mut [u8]) -> (r: Option<usize>)
        ensures
            ({
                let e = vstd::utf8::encode_scalar(self as u32);
                let m = if old(dst)@.len() < 4 {
                    old(dst)@.len() as int
                } else {
                    4
                };
                if e.len() <= old(dst)@.len() {
                    r == Some(e.len() as usize) && final(dst)@ == crate::codec::pad4(e).subrange(
                        0,
                        m,
                    ) + old(dst)@.subrange(m, old(dst)@.len() as int)
                } else {
                    r is None && final(dst)@ == old(dst)@
                }
            }),
            old(dst)@.len() >= 4 ==> r is Some,
    {
        proof {
            char_is_scalar(self);
            crate::codec::lemma_pad4_decode(self as u32);
        }
        self.to_utf8().to_slice(dst)
    }

    fn to_utf8_array(self) -> (r: ([u8; 4], usize))
        ensures
            r.0@ == crate::codec::pad4(vstd::utf8::encode_scalar(self as u32)),
            r.1 == vstd::utf8::encode_scalar(self as u32).len(),
            1 <= r.1 <= 4,
    {
        proof {
            char_is_scalar(self);
        }
        let c = self as u32;
        let r = if c < 0x80 {
            ([c as u8, 0, 0, 0], 1)
        } else if c < 0x800 {
            ([0xC0 | ((c >> 6) & 0x1F) as u8, 0x80 | (c & 0x3F) as u8, 0, 0], 2)
        } else if c < 0x10000 {
            (
                [
                    0xE0 | ((c >> 12) & 0x0F) as u8,
                    0x80 | ((c >> 6) & 0x3F) as u8,
                    0x80 | (c & 0x3F) as u8,
                    0,
                ],
                3,
            )
        } else {
            (
                [
                    0xF0 | ((c >> 18) & 0x7) as u8,
                    0x80 | ((c >> 12) & 0x3F) as u8,
                    0x80 | ((c >> 6) & 0x3F) as u8,
                    0x80 | (c & 0x3F) as u8,
                ],
                4,
            )
        };
        proof {
            if c < 0x80 {
                assert((c as u8) == ((c & 0x7F) as u8)) by (bit_vector)
                    requires
                        c < 0x80,
                ;
            }
            assert(r.0@ =~= crate::codec::pad4(vstd::utf8::encode_scalar(c)));
        }
        r
    }

    fn to_utf16_tuple(self) -> (r: (u16, Option<u16>))
        ensures
            r == spec_encode_utf16_tuple(self as u32),
    {
        proof {
            char_is_scalar(self);
        }
        let c = self as u32;
        if c <= 0xFFFF {
            (c as u16, None)
        } else {
            let v = c - 0x10000;
            proof {
                vstd::arithmetic::div_mod::lemma_div_is_ordered(v as int, 0xFFFFF, 0x400);
            }
            let high = 0xD800 + v / 0x400;
            let low = 0xDC00 + v % 0x400;
            (high as u16, Some(low as u16))
        }
    }

    fn to_utf16_slice(self, dst: &mut [u16]) -> (r: Option<usize>)
        ensures
            ({
                let t = spec_encode_utf16_tuple(self as u32);
                match t.1 {
                    Some(second) => if old(dst)@.len() >= 2 {
                        r == Some(2usize) && final(dst)@ == old(dst)@.update(0, t.0).update(
                            1,
                            second,
                        )
                    } else {
                        r is None && final(dst)@ == old(dst)@
                    },
                    None => if old(dst)@.len() >= 1 {
                        r == Some(1usize) && final(dst)@ == old(dst)@.update(0, t.0)
                    } else {
                        r is None && final(dst)@ == old(dst)@
                    },
                }
            }),
            old(dst)@.len() >= 2 ==> r is Some,
    {
        let (first, second) = self.to_utf16_tuple();
        match second {
            Some(second_unit) => {
                if dst.len() < 2 {
                    None
                } else {
                    dst[0] = first;
                    dst[1] = second_unit;
                    Some(2)
                }
            },
            None => {
                if dst.len() == 0 {
                    None
                } else {
                    dst[0] = first;
                    Some(1)
                }
            },
        }
    }

    fn from_utf8_slice(src: &[u8]) -> (r: Result<(Self, usize), InvalidUtf8Slice>)
        ensures
            spec_decode_utf8_slice(src@) matches Ok(p) ==> (r matches Ok(q) && (q.0 as u32) == p.0
                && q.1 == p.1),
            spec_decode_utf8_slice(src@) matches Err(e) ==> r == Err::<(char, usize),
                InvalidUtf8Slice,
            >(e),
    {
        if src.len() == 0 {
            return Err(InvalidUtf8Slice::TooShort(1));
        }
        let first = src[0];
        match first.extra_utf8_bytes() {
            Err(e) => Err(InvalidUtf8Slice::Utf8(InvalidUtf8::FirstByte(e))),
            Ok(extra) => {
                if extra == 0 {
                    let ch = match char::from_u32(first as u32) {
                        Some(ch) => ch,
                        None => vstd::pervasive::unreached(),
                    };
                    Ok((ch, 1))
                } else if src.len() < extra + 1 {
                    Err(InvalidUtf8Slice::TooShort(extra + 1))
                } else if !(0x80 <= src[1] && src[1] <= 0xBF) {
                    Err(InvalidUtf8Slice::Utf8(InvalidUtf8::NotAContinuationByte(1)))
                } else if extra >= 2 && !(0x80 <= src[2] && src[2] <= 0xBF) {
                    Err(InvalidUtf8Slice::Utf8(InvalidUtf8::NotAContinuationByte(2)))
                } else if extra >= 3 && !(0x80 <= src[3] && src[3] <= 0xBF) {
                    Err(InvalidUtf8Slice::Utf8(InvalidUtf8::NotAContinuationByte(3)))
                } else if overlong(first, src[1]) {
                    Err(InvalidUtf8Slice::Utf8(InvalidUtf8::OverLong))
                } else {
                    let c = decode_codepoint(src);
                    match Self::from_u32_detailed(c) {
                        Ok(ch) => Ok((ch, extra + 1)),
                        Err(e) => Err(InvalidUtf8Slice::CodePoint(e)),
                    }
                }
            },
        }
    }

    fn from_utf8_array(utf8: [u8; 4]) -> (r: Result<Self, InvalidUtf8Array>)
        ensures
            spec_decode_utf8_array(utf8@) matches Ok(c) ==> (r matches Ok(ch) && (ch as u32) == c),
            spec_decode_utf8_array(utf8@) matches Err(e) ==> r == Err::<char, InvalidUtf8Array>(e),
    {
        let first = utf8[0];
        match first.extra_utf8_bytes() {
            Err(e) => Err(InvalidUtf8Array::Utf8(InvalidUtf8::FirstByte(e))),
            Ok(extra) => {
                if extra == 0 {
                    let ch = match char::from_u32(first as u32) {
                        Some(ch) => ch,
                        None => vstd::pervasive::unreached(),
                    };
                    Ok(ch)
                } else if !(0x80 <= utf8[1] && utf8[1] <= 0xBF) {
                    Err(InvalidUtf8Array::Utf8(InvalidUtf8::NotAContinuationByte(1)))
                } else if extra >= 2 && !(0x80 <= utf8[2] && utf8[2] <= 0xBF) {
                    Err(InvalidUtf8Array::Utf8(InvalidUtf8::NotAContinuationByte(2)))
                } else if extra >= 3 && !(0x80 <= utf8[3] && utf8[3] <= 0xBF) {
                    Err(InvalidUtf8Array::Utf8(InvalidUtf8::NotAContinuationByte(3)))
                } else if overlong(first, utf8[1]) {
                    Err(InvalidUtf8Array::Utf8(InvalidUtf8::OverLong))
                } else {
                    let c = decode_codepoint(utf8.as_slice());
                    match Self::from_u32_detailed(c) {
                        Ok(ch) => Ok(ch),
                        Err(e) => Err(InvalidUtf8Array::CodePoint(e)),
                    }
                }
            },
        }
    }

    fn from_utf8_exact_slice_unchecked(src: &[u8]) -> (r: Self)
        ensures
            (r as u32) == decode_first_scalar(src@),
    {
        let c = decode_codepoint(src);
        proof {
            lemma_codepoint_width_bound(src@);
        }
        match char::from_u32(c) {
            Some(ch) => ch,
            None => vstd::pervasive::unreached(),
        }
    }

    fn from_utf16_slice(src: &[u16]) -> (r: Result<(Self, usize), InvalidUtf16Slice>)
        ensures
            spec_decode_utf16_slice(src@) matches Ok(p) ==> (r matches Ok(q) && (q.0 as u32) == p.0
                && q.1 == p.1),
            spec_decode_utf16_slice(src@) matches Err(e) ==> r == Err::<(char, usize),
                InvalidUtf16Slice,
            >(e),
    {
        if src.len() == 0 {
            return Err(InvalidUtf16Slice::EmptySlice);
        }
        let first = src[0];
        match first.utf16_needs_extra_unit() {
            None => Err(InvalidUtf16Slice::FirstLowSurrogate),
            Some(false) => {
                let ch = match char::from_u32(first as u32) {
                    Some(ch) => ch,
                    None => vstd::pervasive::unreached(),
                };
                Ok((ch, 1))
            },
            Some(true) => {
                if src.len() < 2 {
                    Err(InvalidUtf16Slice::MissingSecond)
                } else {
                    let second = src[1];
                    if 0xDC00 <= second && second <= 0xDFFF {
                        let ch = Self::from_utf16_tuple_unchecked((first, Some(second)));
                        Ok((ch, 2))
                    } else {
                        Err(InvalidUtf16Slice::SecondNotLowSurrogate)
                    }
                }
            },
        }
    }

    fn from_utf16_tuple(utf16: (u16, Option<u16>)) -> (r: Result<Self, InvalidUtf16Tuple>)
        ensures
            spec_decode_utf16_tuple(utf16) matches Ok(c) ==> (r matches Ok(ch) && (ch as u32)
                == c),
            spec_decode_utf16_tuple(utf16) matches Err(e) ==> r == Err::<char, InvalidUtf16Tuple>(
                e,
            ),
    {
        let first = utf16.0;
        if 0xDC00 <= first && first <= 0xDFFF {
            Err(InvalidUtf16Tuple::FirstIsTrailingSurrogate)
        } else if 0xD800 <= first && first <= 0xDBFF {
            match utf16.1 {
                None => Err(InvalidUtf16Tuple::MissingSecond),
                Some(second) => {
                    if 0xDC00 <= second && second <= 0xDFFF {
                        Ok(Self::from_utf16_tuple_unchecked(utf16))
                    } else {
                        Err(InvalidUtf16Tuple::InvalidSecond)
                    }
                },
            }
        } else {
            match utf16.1 {
                None => {
                    let ch = match char::from_u32(first as u32) {
                        Some(ch) => ch,
                        None => vstd::pervasive::unreached(),
                    };
                    Ok(ch)
                },
                Some(_) => Err(InvalidUtf16Tuple::SuperfluousSecond),
            }
        }
    }

    fn from_utf16_tuple_unchecked(utf16: (u16, Option<u16>)) -> (r: Self)
        ensures
            (r as u32) == spec_decode_utf16_tuple(utf16)->Ok_0,
    {
        let c: u32 = match utf16.1 {
            Some(second) => {
                let high = (utf16.0 - 0xD800) as u32;
                let low = (second - 0xDC00) as u32;
                high * 0x400 + low + 0x10000
            },
            None => utf16.0 as u32,
        };
        match char::from_u32(c) {
            Some(ch) => ch,
            None => vstd::pervasive::unreached(),
        }
    }

    fn from_u32_detailed(c: u32) -> (r: Result<Self, InvalidCodePoint>)
        ensures
            r == spec_from_u32_detailed(c),
            r is Ok <==> is_scalar(c),
    {
        if 0xD800 <= c && c <= 0xDFFF {
            Err(InvalidCodePoint::Utf16Reserved)
        } else if c > 0x10FFFF {
            Err(InvalidCodePoint::TooHigh)
        } else {
            match char::from_u32(c) {
                Some(ch) => {
                    proof {
                        char_u32_cast(ch, c);
                    }
                    Ok(ch)
                },
                None => vstd::pervasive::unreached(),
            }
        }
    }
}

/// True when a multi-byte UTF-8 sequence beginning with the bytes `first` and
/// `second` is overlong: it encodes a scalar that would fit in fewer bytes.
/// The bytes after `second` never matter, since they contribute too few bits
/// to reach the next length threshold.
pub fn overlong(first: u8, second: u8) -> (r: bool)
    ensures
        r == spec_overlong(first, second),
{
    if first < 0xE0 {
        (first & 0x1F) < 2
    } else if first < 0xF0 {
        (first & 0x0F) == 0 && (second & 0x3F) < 0x20
    } else {
        (first & 0x07) == 0 && (second & 0x3F) < 0x10
    }
}

} // verus!
