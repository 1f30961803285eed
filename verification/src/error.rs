//! Errors returned by the conversion methods in this crate.
//!
//! Every fallible conversion reports exactly what was wrong with its input;
//! the contracts of the conversion functions state, input by input, which of
//! these values is returned.

use vstd::prelude::*;

verus! {

/// A byte cannot begin a UTF-8 sequence.
#[derive(Clone, Copy, Debug, PartialEq, Eq, Structural)]
pub enum InvalidUtf8FirstByte {
    /// The byte has the form `10xxxxxx`: it can only continue a sequence.
    ContinuationByte,
    /// The byte declares a sequence longer than the four bytes UTF-8 allows.
    TooLongSequence,
}

/// A byte sequence is not a valid UTF-8 encoding of one codepoint.
#[derive(Clone, Copy, Debug, PartialEq, Eq, Structural)]
pub enum InvalidUtf8 {
    /// The first byte cannot begin a sequence.
    FirstByte(InvalidUtf8FirstByte),
    /// The byte at this position should have been a continuation byte.
    NotAContinuationByte(usize),
    /// The sequence uses more bytes than its codepoint needs.
    OverLong,
}

/// A codepoint is not a legal Unicode scalar value.
#[derive(Clone, Copy, Debug, PartialEq, Eq, Structural)]
pub enum InvalidCodePoint {
    /// The value is greater than the maximum codepoint, 0x10FFFF.
    TooHigh,
    /// The value lies in 0xD800..=0xDFFF, which is reserved for UTF-16
    /// surrogate pairs.
    Utf16Reserved,
}

/// The start of a byte slice is not a valid UTF-8 encoding of one codepoint.
#[derive(Clone, Copy, Debug, PartialEq, Eq, Structural)]
pub enum InvalidUtf8Slice {
    /// The slice holds fewer bytes than the sequence needs; in total the
    /// sequence needs this many bytes.
    TooShort(usize),
    /// The bytes are not a well-formed sequence.
    Utf8(InvalidUtf8),
    /// The sequence decodes to a value that is not a legal scalar value.
    CodePoint(InvalidCodePoint),
}

/// A 4-byte buffer does not start with a valid UTF-8 encoding of one
/// codepoint.
#[derive(Clone, Copy, Debug, PartialEq, Eq, Structural)]
pub enum InvalidUtf8Array {
    /// The bytes are not a well-formed sequence.
    Utf8(InvalidUtf8),
    /// The sequence decodes to a value that is not a legal scalar value.
    CodePoint(InvalidCodePoint),
}

/// The start of a slice of UTF-16 units is not a valid encoding of one
/// codepoint.
#[derive(Clone, Copy, Debug, PartialEq, Eq, Structural)]
pub enum InvalidUtf16Slice {
    /// The slice is empty.
    EmptySlice,
    /// The first unit is a low (trailing) surrogate.
    FirstLowSurrogate,
    /// The first unit is a high surrogate, but the slice ends before the
    /// required low surrogate.
    MissingSecond,
    /// The first unit is a high surrogate, but the second unit is not a low
    /// surrogate.
    SecondNotLowSurrogate,
}

/// A `(u16, Option<u16>)` pair is not a valid UTF-16 encoding of one
/// codepoint.
#[derive(Clone, Copy, Debug, PartialEq, Eq, Structural)]
pub enum InvalidUtf16Tuple {
    /// The first unit is a low (trailing) surrogate, which can never lead.
    FirstIsTrailingSurrogate,
    /// The first unit needs no partner, but a second unit is present.
    SuperfluousSecond,
    /// The first unit is a high surrogate, but no second unit is present.
    MissingSecond,
    /// The first unit is a high surrogate, but the second unit is not a low
    /// surrogate.
    InvalidSecond,
}

/// A string cannot be stored as a single encoded codepoint.
#[derive(Clone, Copy, Debug, PartialEq, Eq, Structural)]
pub enum FromStrError {
    /// The string holds more than one codepoint.
    SeveralCodePoints,
    /// The string is empty.
    Empty,
}

} // verus!
