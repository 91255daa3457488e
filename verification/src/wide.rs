//! Last-resort decoding of buffers holding fixed-width 2-byte code units.
//!
//! Legacy translation data often stores text as 16-bit little-endian code
//! units, one unit per character, which a statistical detector mislabels
//! as plain single-byte text. Each unit is taken directly as a scalar of
//! the Basic Multilingual Plane; an odd byte length or a unit in the
//! surrogate range means the strategy fails and the caller falls back.

use vstd::prelude::*;
use vstd::utf8::is_scalar;

verus! {

/// The 16-bit little-endian code units of the buffer, two bytes per unit.
pub open spec fn wide_units(s: Seq<u8>) -> Seq<u16>
    recommends
        s.len() % 2 == 0,
{
    Seq::new((s.len() / 2) as nat, |k: int| (s[2 * k] + s[2 * k + 1] * 0x100) as u16)
}

/// True when the buffer decodes as fixed-width units: an even number of
/// bytes, every unit a Unicode scalar (that is, not in the surrogate range).
pub open spec fn wide_ok(s: Seq<u8>) -> bool {
    &&& s.len() % 2 == 0
    &&& forall|k: int|
        0 <= k < wide_units(s).len() ==> is_scalar(#[trigger] wide_units(s)[k] as u32)
}

/// The character sequence the fixed-width strategy produces: each unit
/// taken directly as the scalar with that value.
pub open spec fn wide_chars(s: Seq<u8>) -> Seq<char>
    recommends
        wide_ok(s),
{
    wide_units(s).map(|k: int, u: u16| (u as u32) as char)
}

/// Decodes the buffer as fixed-width 2-byte little-endian code units, or
/// reports failure on an odd byte length or a surrogate-range unit. On
/// success the text holds one character per unit: half as many characters
/// as input bytes.
pub fn decode_wide(bytes: &Vec<u8>) -> (r: Option<Vec<char>>)
    ensures
        r is Some <==> wide_ok(bytes@),
        r matches Some(v) ==> v@ == wide_chars(bytes@),
{
    let ghost s = bytes@;
    let n = bytes.len();
    if n % 2 != 0 {
        return None;
    }
    let half = n / 2;
    let mut out: Vec<char> = Vec::new();
    let mut k: usize = 0;
    while k < half
        invariant
            s == bytes@,
            n == s.len(),
            n % 2 == 0,
            half == n / 2,
            k <= half,
            out@.len() == k,
            forall|j: int|
                0 <= j < k ==> is_scalar(#[trigger] wide_units(s)[j] as u32),
            forall|j: int| 0 <= j < k ==> out@[j] == (wide_units(s)[j] as u32) as char,
        decreases half - k,
    {
        let lo = bytes[2 * k];
        let hi = bytes[2 * k + 1];
        let u: u16 = (lo as u16) + (hi as u16) * 0x100;
        proof {
            assert(wide_units(s)[k as int] == u);
        }
        if 0xD800 <= u && u <= 0xDFFF {
            proof {
                assert(!is_scalar(wide_units(s)[k as int] as u32));
            }
            return None;
        }
        let c = match crate::chars::char_from_u32(u as u32) {
            Some(c) => c,
            None => vstd::pervasive::unreached(),
        };
        proof {
            vstd::utf8::char_u32_cast(c, u as u32);
        }
        out.push(c);
        k += 1;
    }
    proof {
        assert(out@ =~= wide_chars(s));
    }
    Some(out)
}

} // verus!
