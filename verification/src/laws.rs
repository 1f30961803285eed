//! The laws relating the two directions of each codec, stated over the same
//! specification functions that the executable conversions are specified
//! against.

use vstd::prelude::*;
use vstd::utf8::{char_is_scalar, encode_scalar, is_scalar};

use crate::codec::{
    lemma_decode_utf16_slice_canonical, lemma_decode_utf16_tuple_canonical,
    lemma_decode_utf8_canonical, lemma_decode_utf16_prefix, lemma_decode_utf8_prefix,
    lemma_encode_scalar_facts, lemma_encode_utf16_facts, spec_decode_utf16_slice,
    spec_decode_utf16_tuple, spec_decode_utf8_array, spec_decode_utf8_slice,
    spec_encode_utf16_tuple, spec_utf16_units,
};
use crate::error::{InvalidUtf16Slice, InvalidUtf16Tuple, InvalidUtf8Array, InvalidUtf8Slice};
use crate::utf16_char::Utf16Char;
use crate::utf8_char::Utf8Char;

verus! {

/// Round trip through UTF-8: decoding the canonical encoding of any legal
/// scalar value succeeds and returns that value together with the encoding's
/// length.
pub proof fn utf8_round_trip(c: char)
    ensures
        spec_decode_utf8_slice(encode_scalar(c as u32)) == Ok::<(u32, usize), InvalidUtf8Slice>(
            (c as u32, encode_scalar(c as u32).len() as usize),
        ),
{
    char_is_scalar(c);
    let e = encode_scalar(c as u32);
    assert(e =~= e.subrange(0, e.len() as int));
    lemma_decode_utf8_prefix(e, c as u32);
}

/// Round trip through UTF-16, slice form: decoding the canonical unit
/// sequence of any legal scalar value succeeds and returns that value
/// together with the number of units.
pub proof fn utf16_round_trip(c: char)
    ensures
        spec_decode_utf16_slice(spec_utf16_units(c as u32)) == Ok::<(u32, usize),
            InvalidUtf16Slice,
        >((c as u32, spec_utf16_units(c as u32).len() as usize)),
{
    char_is_scalar(c);
    let u = spec_utf16_units(c as u32);
    assert(u =~= u.subrange(0, u.len() as int));
    lemma_decode_utf16_prefix(u, c as u32);
}

/// Round trip through UTF-16, tuple form: decoding the canonical tuple of
/// any legal scalar value succeeds and returns that value.
pub proof fn utf16_tuple_round_trip(c: char)
    ensures
        spec_decode_utf16_tuple(spec_encode_utf16_tuple(c as u32)) == Ok::<u32,
            InvalidUtf16Tuple,
        >(c as u32),
{
    char_is_scalar(c);
    lemma_encode_utf16_facts(c as u32);
}

/// No normalization in UTF-8: whenever decoding succeeds, encoding the
/// scalar it returned reproduces the consumed bytes exactly.
pub proof fn utf8_no_normalization(s: Seq<u8>, c: u32, n: usize)
    requires
        spec_decode_utf8_slice(s) == Ok::<(u32, usize), InvalidUtf8Slice>((c, n)),
    ensures
        is_scalar(c),
        n == encode_scalar(c).len(),
        encode_scalar(c) == s.subrange(0, n as int),
{
    lemma_decode_utf8_canonical(s, c, n);
    lemma_encode_scalar_facts(c);
}

/// No normalization in UTF-16, slice form: whenever decoding succeeds,
/// encoding the scalar it returned reproduces the consumed units exactly.
pub proof fn utf16_no_normalization(s: Seq<u16>, c: u32, n: usize)
    requires
        spec_decode_utf16_slice(s) == Ok::<(u32, usize), InvalidUtf16Slice>((c, n)),
    ensures
        is_scalar(c),
        n == spec_utf16_units(c).len(),
        spec_utf16_units(c) == s.subrange(0, n as int),
{
    lemma_decode_utf16_slice_canonical(s, c, n);
}

/// No normalization in UTF-16, tuple form: whenever decoding succeeds,
/// encoding the scalar it returned reproduces the tuple exactly.
pub proof fn utf16_tuple_no_normalization(t: (u16, Option<u16>), c: u32)
    requires
        spec_decode_utf16_tuple(t) == Ok::<u32, InvalidUtf16Tuple>(c),
    ensures
        is_scalar(c),
        spec_encode_utf16_tuple(c) == t,
{
    lemma_decode_utf16_tuple_canonical(t, c);
}

/// The 4-byte-array form of UTF-8 decoding agrees with the slice form on
/// every success and failure case: a 4-byte buffer is never too short, and
/// the two forms apply the same rules to the same bytes.
pub proof fn utf8_array_agrees_with_slice(s: Seq<u8>)
    requires
        s.len() == 4,
    ensures
        ({
            match (spec_decode_utf8_array(s), spec_decode_utf8_slice(s)) {
                (Ok(c), Ok((c2, _))) => c == c2,
                (Err(InvalidUtf8Array::Utf8(e)), Err(InvalidUtf8Slice::Utf8(e2))) => e == e2,
                (
                    Err(InvalidUtf8Array::CodePoint(e)),
                    Err(InvalidUtf8Slice::CodePoint(e2)),
                ) => e == e2,
                _ => false,
            }
        }),
{
}

/// Equality of stored UTF-8 codepoints agrees with equality of the scalar
/// values they store: the minimal encoding of a scalar is unique.
pub proof fn utf8_char_eq_agrees_with_scalar(a: Utf8Char, b: Utf8Char)
    requires
        a.wf(),
        b.wf(),
    ensures
        (a@ == b@) <==> (a.spec_scalar() == b.spec_scalar()),
{
}

/// Equality of stored UTF-16 codepoints agrees with equality of the scalar
/// values they store: the canonical unit encoding of a scalar is unique.
pub proof fn utf16_char_eq_agrees_with_scalar(a: Utf16Char, b: Utf16Char)
    requires
        a.wf(),
        b.wf(),
    ensures
        (a@ == b@) <==> (a.spec_scalar() == b.spec_scalar()),
{
}

} // verus!
