//! Conversion of byte buffers of unknown, possibly legacy, text encodings
//! into guaranteed-valid Unicode text.
//!
//! The pipeline never fails: an encoding is guessed for the input bytes,
//! the matching decoding strategy is applied, and a lossy UTF-8 fallback
//! backs up every strategy that can reject its input, so that every byte
//! buffer yields text.

use vstd::prelude::*;

mod chars;
pub mod codepage;
pub mod convert;
pub mod detect;
pub mod numbers;
pub mod utf8_codec;
pub mod wide;

verus! {

pub use convert::convert_to_utf8;
pub use convert::convert_with_label;
pub use convert::cstr_to_utf8;
pub use detect::EncodingLabel;
pub use numbers::string_to_int;

} // verus!
