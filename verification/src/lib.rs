//! Exact, allocation-free conversion between Unicode scalar values and their
//! UTF-8 or UTF-16 encodings, in both directions, with full validation of
//! malformed input.
//!
//! The crate offers the codec itself (see [`CharExt`]) together with two small
//! value types, [`Utf8Char`] and [`Utf16Char`], that store a single codepoint
//! in its encoded form and expose the encoded bytes or units directly.
//!
//! Every conversion is specified against the UTF-8 model in `vstd::utf8` and
//! the UTF-16 model in [`codec`], and verified: encoding a scalar always
//! produces its minimal encoding, and decoding accepts exactly the well-formed
//! inputs, reporting a precise error for every malformed one.

pub mod codec;
pub mod error;
pub mod laws;
pub mod traits;
pub mod utf16_char;
pub mod utf8_char;

pub use traits::CharExt;
pub use traits::U16UtfExt;
pub use traits::U8UtfExt;
pub use traits::overlong;
pub use utf16_char::Utf16Char;
pub use utf8_char::Utf8Char;
