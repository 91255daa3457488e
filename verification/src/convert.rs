//! The conversion pipeline: normalize, detect, dispatch, decode.
//!
//! The pipeline turns any byte buffer into valid Unicode text and never
//! fails: the detector picks a strategy, the strategy chain runs the
//! specific decoders first, and the lossy UTF-8 fallback backs up every
//! path that can reject its input.

use vstd::prelude::*;
use vstd::utf8::{decode_utf8, encode_utf8, valid_utf8};

use crate::codepage::{decode_iso8859_15, decode_iso8859_9, iso8859_15_text, iso8859_9_text};
use crate::detect::{
    classify, detect, detected_label, esc_only, esc_only_check, spec_classify, EncodingLabel,
};
use crate::utf8_codec::{lemma_lossy_decode_valid, lossy_decode, utf8_chars};
use crate::wide::{decode_wide, wide_chars, wide_ok};

verus! {

/// A buffer that came from a C-style null-terminated string may carry one
/// trailing terminator byte; this is that buffer with the terminator
/// removed. An empty buffer is unchanged, and a buffer of one zero byte
/// becomes empty.
pub open spec fn strip_terminator(s: Seq<u8>) -> Seq<u8> {
    if s.len() > 0 && s.last() == 0 {
        s.drop_last()
    } else {
        s
    }
}

/// Removes a single trailing zero byte, if the buffer ends with one.
pub fn strip_nul(bytes: Vec<u8>) -> (r: Vec<u8>)
    ensures
        r@ == strip_terminator(bytes@),
{
    let n = bytes.len();
    if n > 0 && bytes[n - 1] == 0 {
        let mut out = bytes;
        out.pop();
        out
    } else {
        bytes
    }
}

/// The text each strategy produces for a buffer. Every label has a total
/// strategy: the UTF-8 and unknown routes fall back to the lossy decoding
/// when their primary decoding rejects the buffer, and the codepage
/// routes cannot reject at all.
pub open spec fn spec_convert_labeled(s: Seq<u8>, label: EncodingLabel) -> Seq<char> {
    match label {
        EncodingLabel::Utf8 => if valid_utf8(s) {
            decode_utf8(s)
        } else {
            lossy_decode(s)
        },
        EncodingLabel::Iso8859_9 => iso8859_9_text(s),
        EncodingLabel::Iso8859_15 => iso8859_15_text(s),
        EncodingLabel::Unknown => if wide_ok(s) {
            wide_chars(s)
        } else {
            lossy_decode(s)
        },
    }
}

/// The text the whole pipeline produces for a buffer: empty input decodes
/// to empty text without consulting the detector, buffers the detector
/// cannot answer for take the unknown route, and every other buffer is
/// routed by the detector's label.
pub open spec fn spec_convert(s: Seq<u8>) -> Seq<char> {
    if s.len() == 0 {
        Seq::empty()
    } else if esc_only(s) {
        spec_convert_labeled(s, EncodingLabel::Unknown)
    } else {
        spec_convert_labeled(s, spec_classify(detected_label(s)))
    }
}

/// Applies the decoding strategy a label stands for. Total: every label
/// yields text for every buffer.
pub fn convert_with_label(bytes: &Vec<u8>, label: EncodingLabel) -> (r: String)
    ensures
        r@ == spec_convert_labeled(bytes@, label),
{
    match label {
        EncodingLabel::Utf8 => {
            let (chars, ok) = utf8_chars(bytes);
            proof {
                if ok {
                    lemma_lossy_decode_valid(bytes@);
                }
            }
            crate::chars::string_from_chars(&chars)
        },
        EncodingLabel::Iso8859_9 => decode_iso8859_9(bytes),
        EncodingLabel::Iso8859_15 => decode_iso8859_15(bytes),
        EncodingLabel::Unknown => {
            match decode_wide(bytes) {
                Some(units) => crate::chars::string_from_chars(&units),
                None => {
                    let (chars, _ok) = utf8_chars(bytes);
                    crate::chars::string_from_chars(&chars)
                },
            }
        },
    }
}

/// Converts a byte buffer of unknown encoding into valid Unicode text.
/// Never fails: every buffer, however malformed, yields a defined text.
pub fn convert_to_utf8(bytes: Vec<u8>) -> (r: String)
    ensures
        r@ == spec_convert(bytes@),
{
    if bytes.is_empty() {
        return String::new();
    }
    if esc_only_check(&bytes) {
        return convert_with_label(&bytes, EncodingLabel::Unknown);
    }
    let name = detect(&bytes);
    let label = classify(&name);
    convert_with_label(&bytes, label)
}

/// Converts a buffer that came from a null-terminated C string: one
/// trailing terminator byte is removed before the general conversion.
pub fn cstr_to_utf8(bytes: Vec<u8>) -> (r: String)
    ensures
        r@ == spec_convert(strip_terminator(bytes@)),
{
    let stripped = strip_nul(bytes);
    convert_to_utf8(stripped)
}

/// Valid UTF-8 buffers round-trip through the UTF-8 strategy: the strategy
/// reproduces exactly the text the buffer encodes, and re-encoding that
/// text gives the buffer back.
pub proof fn lemma_utf8_round_trip(s: Seq<u8>)
    requires
        valid_utf8(s),
    ensures
        spec_convert_labeled(s, EncodingLabel::Utf8) == decode_utf8(s),
        encode_utf8(spec_convert_labeled(s, EncodingLabel::Utf8)) == s,
{
    vstd::utf8::decode_utf8_encode_utf8(s);
}

/// The UTF-8 strategy is idempotent on every text: serializing any
/// character sequence to UTF-8 bytes and converting those bytes along the
/// UTF-8 route yields the same sequence again, so converted output is a
/// fixed point of the pipeline.
pub proof fn lemma_reconvert_fixed_point(t: Seq<char>)
    ensures
        valid_utf8(encode_utf8(t)),
        spec_convert_labeled(encode_utf8(t), EncodingLabel::Utf8) == t,
{
    vstd::utf8::encode_utf8_valid_utf8(t);
    vstd::utf8::encode_utf8_decode_utf8(t);
}

/// Empty input decodes to empty text.
pub proof fn lemma_convert_empty(s: Seq<u8>)
    requires
        s.len() == 0,
    ensures
        spec_convert(s) == Seq::<char>::empty(),
{
}

/// Whatever text the pipeline produces serializes to valid UTF-8 bytes:
/// the output is always well-formed Unicode text.
pub proof fn lemma_output_valid_utf8(s: Seq<u8>)
    ensures
        valid_utf8(encode_utf8(spec_convert(s))),
{
    vstd::utf8::encode_utf8_valid_utf8(spec_convert(s));
}

/// Appending one terminator byte to a buffer that does not already end in
/// one and converting it as a null-terminated string gives exactly the
/// conversion of the buffer itself.
pub proof fn lemma_null_terminated_agrees(s: Seq<u8>)
    requires
        s.len() == 0 || s.last() != 0,
    ensures
        spec_convert(strip_terminator(s.push(0))) == spec_convert(s),
{
    assert(strip_terminator(s.push(0)) =~= s);
}

} // verus!
