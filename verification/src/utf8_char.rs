//! A codepoint stored as its UTF-8 encoding.

use vstd::prelude::*;
use vstd::utf8::{
    char_is_scalar, char_u32_cast, decode_first_scalar, encode_scalar, encode_utf8, is_scalar,
    length_of_first_scalar, valid_first_scalar,
};

use crate::codec::{
    lemma_decode_utf8_prefix, lemma_encode_utf8_len_lb, lemma_pad4_decode, pad4,
    spec_decode_utf8_array, spec_decode_utf8_slice,
};
use crate::error::{FromStrError, InvalidUtf8Array, InvalidUtf8Slice};
use crate::traits::{CharExt, U8UtfExt, decode_codepoint};

verus! {

/// A codepoint stored as UTF-8: a 4-byte array whose first `len()` bytes are
/// the minimal UTF-8 encoding of one scalar value, and whose remaining bytes
/// are zero.
///
/// Because the stored bytes are always the unique minimal encoding, two
/// values are equal exactly when they store the same codepoint, and the
/// derived hash agrees with that equality. The derived ordering on the raw
/// bytes also agrees with ordering the codepoints: longer encodings start
/// with larger lead bytes, and the unused bytes are zero.
#[derive(Clone, Copy, Debug, Hash, Eq, PartialOrd, Ord)]
pub struct Utf8Char {
    bytes: [u8; 4],
}

impl View for Utf8Char {
    type V = Seq<u8>;

    closed spec fn view(&self) -> Seq<u8> {
        self.bytes@
    }
}

impl Utf8Char {
    /// The scalar value this value stores.
    pub open spec fn spec_scalar(self) -> u32 {
        decode_first_scalar(self@)
    }

    /// The number of bytes the stored encoding uses.
    pub open spec fn spec_len(self) -> int {
        length_of_first_scalar(self@)
    }

    /// The invariant every reachable value satisfies: the bytes are exactly
    /// the zero-padded minimal encoding of a legal scalar value.
    pub open spec fn wf(self) -> bool {
        &&& is_scalar(self.spec_scalar())
        &&& self@ == pad4(encode_scalar(self.spec_scalar()))
    }

    /// A well-formed value's view is 4 bytes long, starts with a valid
    /// encoding whose length the lead byte announces, and is zero after it.
    pub proof fn lemma_wf(self)
        requires
            self.wf(),
        ensures
            self@.len() == 4,
            valid_first_scalar(self@),
            self.spec_len() == encode_scalar(self.spec_scalar()).len(),
            1 <= self.spec_len() <= 4,
            forall|i: int| self.spec_len() <= i < 4 ==> #[trigger] self@[i] == 0,
    {
        lemma_pad4_decode(self.spec_scalar());
    }

    /// Store the codepoint `c`.
    pub fn from_char(c: char) -> (r: Self)
        ensures
            r.wf(),
            r.spec_scalar() == c as u32,
            r@ == pad4(encode_scalar(c as u32)),
    {
        let (bytes, _len) = c.to_utf8_array();
        let r = Utf8Char { bytes };
        proof {
            char_is_scalar(c);
            lemma_pad4_decode(c as u32);
        }
        r
    }

    /// Validate the start of a UTF-8 slice and store it. Also returns how
    /// many bytes were needed.
    pub fn from_slice_start(src: &[u8]) -> (r: Result<(Self, usize), InvalidUtf8Slice>)
        ensures
            spec_decode_utf8_slice(src@) matches Ok(p) ==> (r matches Ok(q) && q.0.wf()
                && q.0.spec_scalar() == p.0 && q.1 == p.1),
            spec_decode_utf8_slice(src@) matches Err(e) ==> r == Err::<(Utf8Char, usize),
                InvalidUtf8Slice,
            >(e),
    {
        match char::from_utf8_slice(src) {
            Ok((ch, len)) => Ok((Utf8Char::from_char(ch), len)),
            Err(e) => Err(e),
        }
    }

    /// Validate a 4-byte buffer as returned from `to_array` and store it.
    /// Bytes after the encoded sequence are ignored and stored as zero.
    pub fn from_array(utf8: [u8; 4]) -> (r: Result<Self, InvalidUtf8Array>)
        ensures
            spec_decode_utf8_array(utf8@) matches Ok(c) ==> (r matches Ok(u) && u.wf()
                && u.spec_scalar() == c),
            spec_decode_utf8_array(utf8@) matches Err(e) ==> r == Err::<Utf8Char,
                InvalidUtf8Array,
            >(e),
    {
        match char::from_utf8_array(utf8) {
            Ok(ch) => Ok(Utf8Char::from_char(ch)),
            Err(e) => Err(e),
        }
    }

    /// Store the single codepoint of `s`, failing distinctly on an empty
    /// string and on a string of several codepoints.
    pub fn from_str(s: &str) -> (r: Result<Self, FromStrError>)
        ensures
            s@.len() == 0 ==> r == Err::<Utf8Char, FromStrError>(FromStrError::Empty),
            s@.len() == 1 ==> (r matches Ok(u) && u.wf() && u.spec_scalar() == s@[0] as u32),
            s@.len() > 1 ==> r == Err::<Utf8Char, FromStrError>(FromStrError::SeveralCodePoints),
    {
        let b = s.as_bytes();
        proof {
            lemma_encode_utf8_len_lb(s@);
        }
        if b.len() == 0 {
            return Err(FromStrError::Empty);
        }
        proof {
            let c0 = s@[0] as u32;
            char_is_scalar(s@[0]);
            assert(encode_utf8(s@) == encode_scalar(c0) + encode_utf8(s@.drop_first()));
            assert(encode_scalar(c0) =~= b@.subrange(0, encode_scalar(c0).len() as int));
            lemma_decode_utf8_prefix(b@, c0);
            lemma_encode_utf8_len_lb(s@.drop_first());
        }
        match char::from_utf8_slice(b) {
            Ok((ch, len)) => {
                proof {
                    char_u32_cast(ch, s@[0] as u32);
                }
                if len == b.len() {
                    Ok(Utf8Char::from_char(ch))
                } else {
                    Err(FromStrError::SeveralCodePoints)
                }
            },
            Err(_) => vstd::pervasive::unreached(),
        }
    }

    /// The number of bytes this codepoint's encoding uses, 1 to 4.
    pub fn len(self) -> (r: usize)
        requires
            self.wf(),
        ensures
            r == self.spec_len(),
            1 <= r <= 4,
    {
        proof {
            self.lemma_wf();
            lemma_pad4_decode(self.spec_scalar());
        }
        self.bytes[0].extra_utf8_bytes_unchecked() + 1
    }

    /// Convert the stored codepoint back to a `char`.
    pub fn to_char(self) -> (r: char)
        requires
            self.wf(),
        ensures
            (r as u32) == self.spec_scalar(),
    {
        proof {
            self.lemma_wf();
        }
        let c = decode_codepoint(self.bytes.as_slice());
        match char::from_u32(c) {
            Some(ch) => ch,
            None => vstd::pervasive::unreached(),
        }
    }

    /// Write the stored bytes to the start of `dst`, and return the number
    /// of bytes in the encoding. `None` is returned if the buffer is too
    /// small; the buffer is then left unmodified. A buffer of length four is
    /// always large enough; a buffer shorter than four holds no padding, so
    /// exactly the encoding is written to it.
    pub fn to_slice(self, dst: &mut [u8]) -> (r: Option<usize>)
        requires
            self.wf(),
        ensures
            ({
                let m = if old(dst)@.len() < 4 {
                    old(dst)@.len() as int
                } else {
                    4
                };
                if self.spec_len() <= old(dst)@.len() {
                    r == Some(self.spec_len() as usize) && final(dst)@ == self@.subrange(0, m)
                        + old(dst)@.subrange(m, old(dst)@.len() as int)
                } else {
                    r is None && final(dst)@ == old(dst)@
                }
            }),
            old(dst)@.len() >= 4 ==> r is Some,
    {
        proof {
            self.lemma_wf();
        }
        let n = self.len();
        if n <= dst.len() {
            dst[0] = self.bytes[0];
            if dst.len() >= 2 {
                dst[1] = self.bytes[1];
            }
            if dst.len() >= 3 {
                dst[2] = self.bytes[2];
            }
            if dst.len() >= 4 {
                dst[3] = self.bytes[3];
            }
            proof {
                let m = if old(dst)@.len() < 4 {
                    old(dst)@.len() as int
                } else {
                    4
                };
                assert(final(dst)@ =~= self@.subrange(0, m) + old(dst)@.subrange(
                    m,
                    old(dst)@.len() as int,
                ));
            }
            Some(n)
        } else {
            None
        }
    }

    /// Expose the stored 4-byte array and the number of bytes used.
    pub fn to_array(self) -> (r: ([u8; 4], usize))
        requires
            self.wf(),
        ensures
            r.0@ == self@,
            r.1 == self.spec_len(),
    {
        (self.bytes, self.len())
    }
}

impl core::str::FromStr for Utf8Char {
    type Err = FromStrError;

    /// The string must contain exactly one codepoint; see `Utf8Char::from_str`
    /// for the contract.
    fn from_str(s: &str) -> Result<Self, FromStrError> {
        Utf8Char::from_str(s)
    }
}

impl Default for Utf8Char {
    /// The default value stores the codepoint 0.
    fn default() -> (r: Self)
        ensures
            r.wf(),
            r.spec_scalar() == 0,
    {
        Utf8Char::from_char('\0')
    }
}

impl PartialEq for Utf8Char {
    /// Two values are equal when they store the same bytes; by the
    /// well-formedness invariant that is exactly when they store the same
    /// codepoint.
    fn eq(&self, other: &Self) -> (r: bool) {
        let r = self.bytes[0] == other.bytes[0] && self.bytes[1] == other.bytes[1] && self.bytes[2]
            == other.bytes[2] && self.bytes[3] == other.bytes[3];
        proof {
            if r {
                assert(self.bytes@ =~= other.bytes@);
            } else {
                if self.bytes@ == other.bytes@ {
                    assert(self.bytes@[0] == other.bytes@[0]);
                    assert(self.bytes@[1] == other.bytes@[1]);
                    assert(self.bytes@[2] == other.bytes@[2]);
                    assert(self.bytes@[3] == other.bytes@[3]);
                }
            }
        }
        r
    }
}

impl vstd::std_specs::cmp::PartialEqSpecImpl for Utf8Char {
    open spec fn obeys_eq_spec() -> bool {
        true
    }

    open spec fn eq_spec(&self, other: &Self) -> bool {
        self@ == other@
    }
}

} // verus!
