//! Conversions between scalars and their UTF-8 / UTF-16 encodings, and the
//! errors reported for malformed input.

use encode_unicode::CharExt;
use encode_unicode::U16UtfExt;
use encode_unicode::U8UtfExt;
use encode_unicode::error::InvalidCodePoint;
use encode_unicode::error::InvalidUtf16Slice;
use encode_unicode::error::InvalidUtf16Tuple;
use encode_unicode::error::InvalidUtf8;
use encode_unicode::error::InvalidUtf8Array;
use encode_unicode::error::InvalidUtf8FirstByte;
use encode_unicode::error::InvalidUtf8Slice;
use encode_unicode::overlong;

const SAMPLES: [char; 14] = [
    '\0', 'A', '\u{7F}', '\u{80}', '\u{E9}', '\u{7FF}', '\u{800}', '\u{D7FF}', '\u{E000}',
    '\u{FFFF}', '\u{10000}', '\u{1F600}', '\u{10FFFE}', '\u{10FFFF}',
];

#[test]
fn utf8_round_trip_samples() {
    for &c in SAMPLES.iter() {
        let (array, len) = c.to_utf8_array();
        assert_eq!(len, c.len_utf8());
        assert_eq!(char::from_utf8_array(array), Ok(c));
        assert_eq!(char::from_utf8_slice(&array[..len]), Ok((c, len)));
        assert_eq!(char::from_utf8_slice(&array), Ok((c, len)));
    }
}

#[test]
fn utf16_round_trip_samples() {
    for &c in SAMPLES.iter() {
        let tuple = c.to_utf16_tuple();
        assert_eq!(char::from_utf16_tuple(tuple), Ok(c));
        let mut buf = [0u16; 2];
        let len = c.to_utf16_slice(&mut buf).unwrap();
        assert_eq!(char::from_utf16_slice(&buf[..len]), Ok((c, len)));
    }
}

#[test]
fn utf8_exact_encodings() {
    assert_eq!('A'.to_utf8_array(), ([0x41, 0, 0, 0], 1));
    assert_eq!('\u{E9}'.to_utf8_array(), ([0xC3, 0xA9, 0, 0], 2));
    assert_eq!('\u{20AC}'.to_utf8_array(), ([0xE2, 0x82, 0xAC, 0], 3));
    assert_eq!('\u{1F600}'.to_utf8_array(), ([0xF0, 0x9F, 0x98, 0x80], 4));
}

#[test]
fn utf16_exact_encodings() {
    assert_eq!('A'.to_utf16_tuple(), (0x41, None));
    assert_eq!('\u{FFFF}'.to_utf16_tuple(), (0xFFFF, None));
    assert_eq!('\u{10000}'.to_utf16_tuple(), (0xD800, Some(0xDC00)));
    assert_eq!('\u{1F600}'.to_utf16_tuple(), (0xD83D, Some(0xDE00)));
    assert_eq!('\u{10FFFF}'.to_utf16_tuple(), (0xDBFF, Some(0xDFFF)));
}

#[test]
fn scalar_validation() {
    assert_eq!(char::from_u32_detailed(0x41), Ok('A'));
    assert_eq!(char::from_u32_detailed(0xD7FF), Ok('\u{D7FF}'));
    assert_eq!(
        char::from_u32_detailed(0xD800),
        Err(InvalidCodePoint::Utf16Reserved)
    );
    assert_eq!(
        char::from_u32_detailed(0xDFFF),
        Err(InvalidCodePoint::Utf16Reserved)
    );
    assert_eq!(char::from_u32_detailed(0xE000), Ok('\u{E000}'));
    assert_eq!(char::from_u32_detailed(0x10FFFF), Ok('\u{10FFFF}'));
    assert_eq!(char::from_u32_detailed(0x110000), Err(InvalidCodePoint::TooHigh));
    assert_eq!(char::from_u32_detailed(u32::MAX), Err(InvalidCodePoint::TooHigh));
}

#[test]
fn overlong_two_byte_rejected() {
    assert_eq!(
        char::from_utf8_slice(&[0xC0, 0x80]),
        Err(InvalidUtf8Slice::Utf8(InvalidUtf8::OverLong))
    );
    assert_eq!(
        char::from_utf8_array([0xC0, 0x80, 0, 0]),
        Err(InvalidUtf8Array::Utf8(InvalidUtf8::OverLong))
    );
    assert_eq!(
        char::from_utf8_slice(&[0xC1, 0x80]),
        Err(InvalidUtf8Slice::Utf8(InvalidUtf8::OverLong))
    );
    // The smallest legal 2-byte sequence is fine.
    assert_eq!(char::from_utf8_slice(&[0xC2, 0x80]), Ok(('\u{80}', 2)));
}

#[test]
fn overlong_longer_sequences_rejected() {
    assert_eq!(
        char::from_utf8_slice(&[0xE0, 0x80, 0x80]),
        Err(InvalidUtf8Slice::Utf8(InvalidUtf8::OverLong))
    );
    assert_eq!(
        char::from_utf8_slice(&[0xE0, 0x9F, 0xBF]),
        Err(InvalidUtf8Slice::Utf8(InvalidUtf8::OverLong))
    );
    assert_eq!(char::from_utf8_slice(&[0xE0, 0xA0, 0x80]), Ok(('\u{800}', 3)));
    assert_eq!(
        char::from_utf8_slice(&[0xF0, 0x8F, 0xBF, 0xBF]),
        Err(InvalidUtf8Slice::Utf8(InvalidUtf8::OverLong))
    );
    assert_eq!(
        char::from_utf8_slice(&[0xF0, 0x90, 0x80, 0x80]),
        Ok(('\u{10000}', 4))
    );
}

#[test]
fn overlong_helper() {
    assert!(overlong(0xC0, 0x80));
    assert!(overlong(0xC1, 0xBF));
    assert!(!overlong(0xC2, 0x80));
    assert!(overlong(0xE0, 0x9F));
    assert!(!overlong(0xE0, 0xA0));
    assert!(!overlong(0xE1, 0x80));
    assert!(overlong(0xF0, 0x8F));
    assert!(!overlong(0xF0, 0x90));
    assert!(!overlong(0xF1, 0x80));
}

#[test]
fn utf8_slice_too_short() {
    assert_eq!(char::from_utf8_slice(&[]), Err(InvalidUtf8Slice::TooShort(1)));
    assert_eq!(char::from_utf8_slice(&[0xC3]), Err(InvalidUtf8Slice::TooShort(2)));
    assert_eq!(char::from_utf8_slice(&[0xE2]), Err(InvalidUtf8Slice::TooShort(3)));
    assert_eq!(
        char::from_utf8_slice(&[0xE2, 0x82]),
        Err(InvalidUtf8Slice::TooShort(3))
    );
    assert_eq!(
        char::from_utf8_slice(&[0xF0, 0x9F, 0x98]),
        Err(InvalidUtf8Slice::TooShort(4))
    );
}

#[test]
fn utf8_bad_lead_bytes() {
    assert_eq!(
        char::from_utf8_slice(&[0x80]),
        Err(InvalidUtf8Slice::Utf8(InvalidUtf8::FirstByte(
            InvalidUtf8FirstByte::ContinuationByte
        )))
    );
    assert_eq!(
        char::from_utf8_slice(&[0xBF, 0x80]),
        Err(InvalidUtf8Slice::Utf8(InvalidUtf8::FirstByte(
            InvalidUtf8FirstByte::ContinuationByte
        )))
    );
    assert_eq!(
        char::from_utf8_slice(&[0xF8, 0x80, 0x80, 0x80]),
        Err(InvalidUtf8Slice::Utf8(InvalidUtf8::FirstByte(
            InvalidUtf8FirstByte::TooLongSequence
        )))
    );
    assert_eq!(
        char::from_utf8_array([0xFF, 0, 0, 0]),
        Err(InvalidUtf8Array::Utf8(InvalidUtf8::FirstByte(
            InvalidUtf8FirstByte::TooLongSequence
        )))
    );
}

#[test]
fn utf8_bad_continuation_bytes() {
    assert_eq!(
        char::from_utf8_slice(&[0xC3, 0x41]),
        Err(InvalidUtf8Slice::Utf8(InvalidUtf8::NotAContinuationByte(1)))
    );
    assert_eq!(
        char::from_utf8_slice(&[0xE2, 0x82, 0xC0]),
        Err(InvalidUtf8Slice::Utf8(InvalidUtf8::NotAContinuationByte(2)))
    );
    assert_eq!(
        char::from_utf8_slice(&[0xF0, 0x9F, 0x98, 0x41]),
        Err(InvalidUtf8Slice::Utf8(InvalidUtf8::NotAContinuationByte(3)))
    );
    assert_eq!(
        char::from_utf8_array([0xE2, 0xC0, 0x80, 0]),
        Err(InvalidUtf8Array::Utf8(InvalidUtf8::NotAContinuationByte(1)))
    );
}

#[test]
fn utf8_decoded_scalar_out_of_range() {
    // 0xED 0xA0 0x80 would decode to the surrogate 0xD800.
    assert_eq!(
        char::from_utf8_slice(&[0xED, 0xA0, 0x80]),
        Err(InvalidUtf8Slice::CodePoint(InvalidCodePoint::Utf16Reserved))
    );
    // 0xF4 0x90 0x80 0x80 would decode to 0x110000.
    assert_eq!(
        char::from_utf8_slice(&[0xF4, 0x90, 0x80, 0x80]),
        Err(InvalidUtf8Slice::CodePoint(InvalidCodePoint::TooHigh))
    );
    assert_eq!(
        char::from_utf8_array([0xED, 0xA0, 0x80, 0]),
        Err(InvalidUtf8Array::CodePoint(InvalidCodePoint::Utf16Reserved))
    );
}

#[test]
fn surrogate_pairing() {
    assert_eq!(char::from_utf16_tuple((0xD83D, Some(0xDE00))), Ok('\u{1F600}'));
    assert_eq!(
        char::from_utf16_tuple((0xD83D, None)),
        Err(InvalidUtf16Tuple::MissingSecond)
    );
    assert_eq!(
        char::from_utf16_tuple((0xDC00, None)),
        Err(InvalidUtf16Tuple::FirstIsTrailingSurrogate)
    );
    assert_eq!(
        char::from_utf16_tuple((0xDC00, Some(0xDC00))),
        Err(InvalidUtf16Tuple::FirstIsTrailingSurrogate)
    );
    assert_eq!(
        char::from_utf16_tuple((0xD83D, Some(0x41))),
        Err(InvalidUtf16Tuple::InvalidSecond)
    );
    assert_eq!(
        char::from_utf16_tuple((0x41, Some(0xDC00))),
        Err(InvalidUtf16Tuple::SuperfluousSecond)
    );
    assert_eq!(char::from_utf16_tuple((0x41, None)), Ok('A'));
}

#[test]
fn utf16_slice_decoding() {
    assert_eq!(char::from_utf16_slice(&[]), Err(InvalidUtf16Slice::EmptySlice));
    assert_eq!(char::from_utf16_slice(&[0x41, 0x42]), Ok(('A', 1)));
    assert_eq!(char::from_utf16_slice(&[0xD83D, 0xDE00]), Ok(('\u{1F600}', 2)));
    assert_eq!(
        char::from_utf16_slice(&[0xD83D]),
        Err(InvalidUtf16Slice::MissingSecond)
    );
    assert_eq!(
        char::from_utf16_slice(&[0xDC00]),
        Err(InvalidUtf16Slice::FirstLowSurrogate)
    );
    assert_eq!(
        char::from_utf16_slice(&[0xD83D, 0x41]),
        Err(InvalidUtf16Slice::SecondNotLowSurrogate)
    );
}

#[test]
fn utf8_buffer_sizing() {
    let mut buf = [7u8; 3];
    assert_eq!('\u{10000}'.to_utf8_slice(&mut buf), None);
    assert_eq!(buf, [7, 7, 7]);
    let mut buf = [7u8; 4];
    assert_eq!('\u{10000}'.to_utf8_slice(&mut buf), Some(4));
    assert_eq!(buf, [0xF0, 0x90, 0x80, 0x80]);
    let mut buf = [7u8; 1];
    assert_eq!('A'.to_utf8_slice(&mut buf), Some(1));
    assert_eq!(buf, [0x41]);
    let mut buf = [0u8; 0];
    assert_eq!('A'.to_utf8_slice(&mut buf), None);
    for &c in SAMPLES.iter() {
        let mut buf = [0u8; 4];
        assert!(c.to_utf8_slice(&mut buf).is_some());
    }
}

#[test]
fn utf16_buffer_sizing() {
    let mut buf = [7u16; 1];
    assert_eq!('\u{10000}'.to_utf16_slice(&mut buf), None);
    assert_eq!(buf, [7]);
    let mut buf = [7u16; 2];
    assert_eq!('\u{10000}'.to_utf16_slice(&mut buf), Some(2));
    assert_eq!(buf, [0xD800, 0xDC00]);
    let mut buf = [7u16; 1];
    assert_eq!('A'.to_utf16_slice(&mut buf), Some(1));
    assert_eq!(buf, [0x41]);
    let mut buf = [0u16; 0];
    assert_eq!('A'.to_utf16_slice(&mut buf), None);
    for &c in SAMPLES.iter() {
        let mut buf = [0u16; 2];
        assert!(c.to_utf16_slice(&mut buf).is_some());
    }
}

#[test]
fn utf8_idempotence() {
    let bytes = [0xF0, 0x9F, 0x98, 0x80];
    let (c, len) = char::from_utf8_slice(&bytes).unwrap();
    let (reencoded, relen) = c.to_utf8_array();
    assert_eq!(relen, len);
    assert_eq!(&reencoded[..relen], &bytes[..len]);

    let bytes = [0xC3, 0xA9, 0xFF];
    let (c, len) = char::from_utf8_slice(&bytes).unwrap();
    assert_eq!(len, 2);
    let (reencoded, relen) = c.to_utf8_array();
    assert_eq!(relen, 2);
    assert_eq!(&reencoded[..relen], &bytes[..len]);
}

#[test]
fn utf16_idempotence() {
    let units = [0xD83D, 0xDE00];
    let (c, len) = char::from_utf16_slice(&units).unwrap();
    assert_eq!(len, 2);
    let mut buf = [0u16; 2];
    assert_eq!(c.to_utf16_slice(&mut buf), Some(2));
    assert_eq!(buf, units);
}

#[test]
fn unchecked_decoders_match_checked_ones() {
    assert_eq!(char::from_utf8_exact_slice_unchecked(&[0x41]), 'A');
    assert_eq!(char::from_utf8_exact_slice_unchecked(&[0xC3, 0xA9]), '\u{E9}');
    assert_eq!(
        char::from_utf8_exact_slice_unchecked(&[0xF0, 0x9F, 0x98, 0x80]),
        '\u{1F600}'
    );
    assert_eq!(char::from_utf16_tuple_unchecked((0x41, None)), 'A');
    assert_eq!(
        char::from_utf16_tuple_unchecked((0xD83D, Some(0xDE00))),
        '\u{1F600}'
    );
}

#[test]
fn extra_utf8_bytes_classification() {
    assert_eq!(0x00u8.extra_utf8_bytes(), Ok(0));
    assert_eq!(0x41u8.extra_utf8_bytes(), Ok(0));
    assert_eq!(0x7Fu8.extra_utf8_bytes(), Ok(0));
    assert_eq!(
        0x80u8.extra_utf8_bytes(),
        Err(InvalidUtf8FirstByte::ContinuationByte)
    );
    assert_eq!(
        0xBFu8.extra_utf8_bytes(),
        Err(InvalidUtf8FirstByte::ContinuationByte)
    );
    assert_eq!(0xC0u8.extra_utf8_bytes(), Ok(1));
    assert_eq!(0xDFu8.extra_utf8_bytes(), Ok(1));
    assert_eq!(0xE0u8.extra_utf8_bytes(), Ok(2));
    assert_eq!(0xEFu8.extra_utf8_bytes(), Ok(2));
    assert_eq!(0xF0u8.extra_utf8_bytes(), Ok(3));
    assert_eq!(0xF7u8.extra_utf8_bytes(), Ok(3));
    assert_eq!(
        0xF8u8.extra_utf8_bytes(),
        Err(InvalidUtf8FirstByte::TooLongSequence)
    );
    assert_eq!(
        0xFFu8.extra_utf8_bytes(),
        Err(InvalidUtf8FirstByte::TooLongSequence)
    );
}

#[test]
fn extra_utf8_bytes_unchecked_is_saturated_leading_ones() {
    for b in 0u16..=255 {
        let b = b as u8;
        let expected = (b.leading_ones() as usize).saturating_sub(1);
        assert_eq!(b.extra_utf8_bytes_unchecked(), expected);
        if let Ok(n) = b.extra_utf8_bytes() {
            assert_eq!(b.extra_utf8_bytes_unchecked(), n);
        }
    }
}

#[test]
fn utf16_unit_classification() {
    assert_eq!(0x0041u16.utf16_needs_extra_unit(), Some(false));
    assert_eq!(0xD7FFu16.utf16_needs_extra_unit(), Some(false));
    assert_eq!(0xD800u16.utf16_needs_extra_unit(), Some(true));
    assert_eq!(0xDBFFu16.utf16_needs_extra_unit(), Some(true));
    assert_eq!(0xDC00u16.utf16_needs_extra_unit(), None);
    assert_eq!(0xDFFFu16.utf16_needs_extra_unit(), None);
    assert_eq!(0xE000u16.utf16_needs_extra_unit(), Some(false));

    assert!(0xD800u16.utf16_is_leading_surrogate());
    assert!(0xDBFFu16.utf16_is_leading_surrogate());
    assert!(!0xDC00u16.utf16_is_leading_surrogate());
    assert!(!0x0041u16.utf16_is_leading_surrogate());
    assert!(!0xE000u16.utf16_is_leading_surrogate());
}
