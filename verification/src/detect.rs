//! The statistical encoding detector, an outside collaborator.
//!
//! The detector is a heuristic classifier: the pipeline only routes on the
//! label it reports and never depends on how the guess is made.

use vstd::prelude::*;

verus! {

/// The decoding strategies the dispatcher can route a buffer to. Any
/// detector label outside the three recognised names is treated as
/// `Unknown`, which is a leniency policy rather than an error: the
/// detector is known to mislabel fixed-width wide text as plain text, so
/// the `Unknown` route always attempts the wide-unit strategy first.
#[derive(Clone, Copy, Debug, PartialEq, Eq, Structural)]
pub enum EncodingLabel {
    Utf8,
    Iso8859_9,
    Iso8859_15,
    Unknown,
}

/// The charset name the statistical detector assigns to a byte buffer.
/// It depends on the bytes alone.
pub uninterp spec fn detected_label(s: Seq<u8>) -> Seq<char>;

/// A byte that switches the detector to its frequency analysis: outside
/// the ASCII range and not the no-break-space byte.
pub open spec fn is_high_byte(b: u8) -> bool {
    b & 0x80 != 0 && b != 0xA0
}

/// A buffer with an escape character and no high byte. The detector hands
/// such buffers to its escape-sequence analysis, which may end without a
/// label, so the pipeline routes them straight to the unknown strategies
/// instead of consulting the detector.
pub open spec fn esc_only(s: Seq<u8>) -> bool {
    &&& forall|i: int| 0 <= i < s.len() ==> !is_high_byte(#[trigger] s[i])
    &&& exists|i: int| 0 <= i < s.len() && s[i] == 0x1B
}

/// Relies on chardet::detect: the charset name it reports is computed from
/// the bytes alone. Buffers its escape-sequence analysis owns (no high
/// byte, an escape character present) are excluded, since the analysis
/// does not come back with an answer for all of them.
#[verifier::external_body]
pub(crate) fn detect(bytes: &Vec<u8>) -> (r: String)
    requires
        bytes@.len() > 0,
        !esc_only(bytes@),
    ensures
        r@ == detected_label(bytes@),
{
    chardet::detect(bytes.as_slice()).0
}

/// Reports whether the buffer is one the detector's escape-sequence
/// analysis would own.
pub(crate) fn esc_only_check(bytes: &Vec<u8>) -> (r: bool)
    ensures
        r == esc_only(bytes@),
{
    let n = bytes.len();
    let mut has_high = false;
    let mut has_esc = false;
    let mut i: usize = 0;
    while i < n
        invariant
            i <= n,
            n == bytes@.len(),
            has_high == exists|j: int| 0 <= j < i && is_high_byte(#[trigger] bytes@[j]),
            has_esc == exists|j: int| 0 <= j < i && bytes@[j] == 0x1B,
        decreases n - i,
    {
        let b = bytes[i];
        if b & 0x80 != 0 && b != 0xA0 {
            has_high = true;
        }
        if b == 0x1B {
            has_esc = true;
        }
        i += 1;
    }
    !has_high && has_esc
}

/// The label a charset name stands for: the three recognised names map to
/// their strategies and every other name is `Unknown`.
pub open spec fn spec_classify(name: Seq<char>) -> EncodingLabel {
    if name == "utf-8"@ {
        EncodingLabel::Utf8
    } else if name == "ISO-8859-9"@ {
        EncodingLabel::Iso8859_9
    } else if name == "ISO-8859-15"@ {
        EncodingLabel::Iso8859_15
    } else {
        EncodingLabel::Unknown
    }
}

/// Maps a detector charset name to the decoding strategy label.
pub fn classify(name: &String) -> (r: EncodingLabel)
    ensures
        r == spec_classify(name@),
{
    let utf8_name: String = "utf-8".to_owned();
    let iso9_name: String = "ISO-8859-9".to_owned();
    let iso15_name: String = "ISO-8859-15".to_owned();
    if *name == utf8_name {
        EncodingLabel::Utf8
    } else if *name == iso9_name {
        EncodingLabel::Iso8859_9
    } else if *name == iso15_name {
        EncodingLabel::Iso8859_15
    } else {
        EncodingLabel::Unknown
    }
}

} // verus!
