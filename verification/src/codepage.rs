//! Single-byte codepage decoding, done by an outside lookup-table
//! collaborator.
//!
//! Each codepage is a fixed map from one byte to at most one Unicode
//! scalar; the pipeline treats the two tables it routes to as named,
//! opaque functions of the input bytes.

use vstd::prelude::*;

verus! {

/// The text the ISO-8859-9 (Turkish Latin) table decodes a buffer to.
/// It depends on the bytes alone.
pub uninterp spec fn iso8859_9_text(s: Seq<u8>) -> Seq<char>;

/// The text the ISO-8859-15 (Western-European Latin) table decodes a
/// buffer to. It depends on the bytes alone.
pub uninterp spec fn iso8859_15_text(s: Seq<u8>) -> Seq<char>;

/// Relies on textcode::iso8859_9::decode: a pure table lookup that appends
/// at most one character per input byte, and nothing for the bytes
/// 0x80..0x9F.
#[verifier::external_body]
pub(crate) fn decode_iso8859_9(bytes: &Vec<u8>) -> (r: String)
    ensures
        r@ == iso8859_9_text(bytes@),
        r@.len() <= bytes@.len(),
{
    let mut dst = String::new();
    textcode::iso8859_9::decode(bytes.as_slice(), &mut dst);
    dst
}

/// Relies on textcode::iso8859_15::decode: a pure table lookup that
/// appends at most one character per input byte, and nothing for the
/// bytes 0x80..0x9F.
#[verifier::external_body]
pub(crate) fn decode_iso8859_15(bytes: &Vec<u8>) -> (r: String)
    ensures
        r@ == iso8859_15_text(bytes@),
        r@.len() <= bytes@.len(),
{
    let mut dst = String::new();
    textcode::iso8859_15::decode(bytes.as_slice(), &mut dst);
    dst
}

} // verus!
