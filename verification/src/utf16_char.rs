//! A codepoint stored as its UTF-16 encoding.

use vstd::prelude::*;
use vstd::utf8::{char_is_scalar, is_scalar};

use crate::codec::{
    lemma_encode_utf16_facts, spec_combine_surrogates, spec_encode_utf16_tuple, spec_utf16_units,
};
use crate::traits::CharExt;

verus! {

/// A codepoint stored as UTF-16: one mandatory unit, which either stands for
/// the whole scalar value, or is the high surrogate of the pair completed by
/// the second unit.
#[derive(Clone, Copy, Debug)]
pub struct Utf16Char {
    first: u16,
    second: Option<u16>,
}

impl View for Utf16Char {
    type V = Seq<u16>;

    closed spec fn view(&self) -> Seq<u16> {
        match self.second {
            None => seq![self.first],
            Some(s) => seq![self.first, s],
        }
    }
}

impl Utf16Char {
    /// The scalar value this value stores.
    pub open spec fn spec_scalar(self) -> u32 {
        if self@.len() == 1 {
            self@[0] as u32
        } else {
            spec_combine_surrogates(self@[0], self@[1])
        }
    }

    /// The invariant every reachable value satisfies: the units are exactly
    /// the canonical UTF-16 encoding of a legal scalar value.
    pub open spec fn wf(self) -> bool {
        &&& is_scalar(self.spec_scalar())
        &&& self@ == spec_utf16_units(self.spec_scalar())
    }

    /// Store the codepoint `c`.
    pub fn from_char(c: char) -> (r: Self)
        ensures
            r.wf(),
            r.spec_scalar() == c as u32,
            r@ == spec_utf16_units(c as u32),
    {
        let (first, second) = c.to_utf16_tuple();
        let r = Utf16Char { first, second };
        proof {
            char_is_scalar(c);
            lemma_encode_utf16_facts(c as u32);
            assert(r@ =~= spec_utf16_units(c as u32));
        }
        r
    }

    /// Convert the stored codepoint back to a `char`.
    pub fn to_char(self) -> (r: char)
        requires
            self.wf(),
        ensures
            (r as u32) == self.spec_scalar(),
    {
        proof {
            lemma_encode_utf16_facts(self.spec_scalar());
        }
        match self.second {
            None => {
                match char::from_u32(self.first as u32) {
                    Some(ch) => ch,
                    None => vstd::pervasive::unreached(),
                }
            },
            Some(second) => char::from_utf16_tuple_unchecked((self.first, Some(second))),
        }
    }

    /// The number of units this codepoint's encoding uses, 1 or 2.
    pub fn len(self) -> (r: usize)
        ensures
            r == self@.len(),
    {
        match self.second {
            None => 1,
            Some(_) => 2,
        }
    }

    /// Expose the stored units: the mandatory first unit, and the second
    /// unit of a surrogate pair if there is one.
    pub fn to_tuple(self) -> (r: (u16, Option<u16>))
        ensures
            r.0 == self@[0],
            r.1 == (if self@.len() == 2 {
                Some(self@[1])
            } else {
                Option::<u16>::None
            }),
            self.wf() ==> r == spec_encode_utf16_tuple(self.spec_scalar()),
    {
        (self.first, self.second)
    }

    /// Write the stored units to the start of `dst`, and return the number
    /// of units written. `None` is returned if the buffer is too small; the
    /// buffer is then left unmodified. A buffer of length two is always
    /// large enough.
    pub fn to_slice(self, dst: &mut [u16]) -> (r: Option<usize>)
        ensures
            ({
                if self@.len() <= old(dst)@.len() {
                    r == Some(self@.len() as usize) && final(dst)@ == self@
                        + old(dst)@.subrange(self@.len() as int, old(dst)@.len() as int)
                } else {
                    r is None && final(dst)@ == old(dst)@
                }
            }),
            old(dst)@.len() >= 2 ==> r is Some,
    {
        match self.second {
            None => {
                if dst.len() == 0 {
                    None
                } else {
                    dst[0] = self.first;
                    proof {
                        assert(final(dst)@ =~= self@ + old(dst)@.subrange(
                            1,
                            old(dst)@.len() as int,
                        ));
                    }
                    Some(1)
                }
            },
            Some(second) => {
                if dst.len() < 2 {
                    None
                } else {
                    dst[0] = self.first;
                    dst[1] = second;
                    proof {
                        assert(final(dst)@ =~= self@ + old(dst)@.subrange(
                            2,
                            old(dst)@.len() as int,
                        ));
                    }
                    Some(2)
                }
            },
        }
    }
}

impl PartialEq for Utf16Char {
    /// Two values are equal when they store the same units; by the
    /// well-formedness invariant that is exactly when they store the same
    /// codepoint.
    fn eq(&self, other: &Self) -> (r: bool) {
        let r = self.first == other.first && (match (self.second, other.second) {
            (None, None) => true,
            (Some(a), Some(b)) => a == b,
            _ => false,
        });
        proof {
            if r {
                assert(self@ =~= other@);
            } else {
                if self@ == other@ {
                    assert(self@.len() == other@.len());
                    assert(self@[0] == other@[0]);
                    if self@.len() == 2 {
                        assert(self@[1] == other@[1]);
                    }
                }
            }
        }
        r
    }
}

impl Eq for Utf16Char {}

impl vstd::std_specs::cmp::PartialEqSpecImpl for Utf16Char {
    open spec fn obeys_eq_spec() -> bool {
        true
    }

    open spec fn eq_spec(&self, other: &Self) -> bool {
        self@ == other@
    }
}

impl Default for Utf16Char {
    /// The default value stores the codepoint 0.
    fn default() -> (r: Self)
        ensures
            r.wf(),
            r.spec_scalar() == 0,
    {
        Utf16Char::from_char('\0')
    }
}

} // verus!
