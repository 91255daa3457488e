//! Strict and lossy UTF-8 decoding, verified against vstd's UTF-8 model.
//!
//! The strict decoder recovers the character sequence of a valid UTF-8
//! buffer. The lossy decoder is total: every maximal subpart of an
//! ill-formed subsequence becomes one replacement character, the policy
//! the Unicode standard recommends for substitution.

use vstd::prelude::*;
use vstd::utf8::{
    decode_first_scalar, decode_utf8, is_continuation_byte, is_scalar, length_of_first_scalar,
    pop_first_scalar, valid_first_scalar, valid_utf8,
};

verus! {

/// True when `b1` may follow the leading byte `b0` in a well-formed
/// encoding: the ranges are narrowed for the leads whose full continuation
/// range would produce an overlong encoding, a surrogate, or a value above
/// the last Unicode scalar.
pub open spec fn second_byte_ok(b0: u8, b1: u8) -> bool {
    if b0 == 0xE0 {
        0xA0 <= b1 <= 0xBF
    } else if b0 == 0xED {
        0x80 <= b1 <= 0x9F
    } else if 0xE1 <= b0 <= 0xEF {
        is_continuation_byte(b1)
    } else if b0 == 0xF0 {
        0x90 <= b1 <= 0xBF
    } else if b0 == 0xF4 {
        0x80 <= b1 <= 0x8F
    } else if 0xF1 <= b0 <= 0xF3 {
        is_continuation_byte(b1)
    } else {
        false
    }
}

/// Number of bytes a lossy decoder consumes for one replacement character
/// when the buffer does not begin with a well-formed scalar encoding: the
/// length of the maximal subpart, the longest prefix that could still grow
/// into a well-formed encoding, and at least one byte.
pub open spec fn invalid_advance(s: Seq<u8>) -> int
    recommends
        s.len() > 0,
{
    let b0 = s[0];
    if 0xE0 <= b0 <= 0xEF {
        if s.len() >= 2 && second_byte_ok(b0, s[1]) {
            2
        } else {
            1
        }
    } else if 0xF0 <= b0 <= 0xF4 {
        if s.len() >= 2 && second_byte_ok(b0, s[1]) {
            if s.len() >= 3 && is_continuation_byte(s[2]) {
                3
            } else {
                2
            }
        } else {
            1
        }
    } else {
        1
    }
}

/// The text a lossy UTF-8 decoder produces: well-formed scalar encodings
/// decode as themselves, and each maximal ill-formed subpart becomes one
/// replacement character. Total over all byte sequences.
pub open spec fn lossy_decode(s: Seq<u8>) -> Seq<char>
    decreases s.len(),
{
    if s.len() == 0 {
        Seq::empty()
    } else if valid_first_scalar(s) {
        seq![decode_first_scalar(s) as char] + lossy_decode(s.skip(length_of_first_scalar(s)))
    } else {
        seq!['\u{FFFD}'] + lossy_decode(s.skip(invalid_advance(s)))
    }
}

/// On a valid UTF-8 buffer the lossy decoder and the strict decoder agree.
pub proof fn lemma_lossy_decode_valid(s: Seq<u8>)
    requires
        valid_utf8(s),
    ensures
        lossy_decode(s) == decode_utf8(s),
    decreases s.len(),
{
    if s.len() != 0 {
        assert(pop_first_scalar(s) =~= s.skip(length_of_first_scalar(s)));
        lemma_lossy_decode_valid(pop_first_scalar(s));
    }
}

proof fn lemma_width_1(b0: u8)
    by (bit_vector)
    requires
        b0 <= 0x7F,
    ensures
        (b0 & 0x7F) as u32 == b0 as u32,
        (b0 & 0x7F) as u32 <= 0x7F,
{
}

proof fn lemma_width_2(b0: u8, b1: u8)
    by (bit_vector)
    requires
        0xC0 <= b0 <= 0xDF,
        0x80 <= b1 <= 0xBF,
    ensures
        ((((b0 & 0x1F) as u32) << 6) | ((b1 & 0x3F) as u32)) <= 0x7FF,
{
}

proof fn lemma_width_3(b0: u8, b1: u8, b2: u8)
    by (bit_vector)
    requires
        0xE0 <= b0 <= 0xEF,
        0x80 <= b1 <= 0xBF,
        0x80 <= b2 <= 0xBF,
    ensures
        ({
            let cp = ((((b0 & 0x0F) as u32) << 12) | (((b1 & 0x3F) as u32) << 6)) | ((b2
                & 0x3F) as u32);
            &&& cp <= 0xFFFF
            &&& ((0x800 <= cp && !(0xD800 <= cp <= 0xDFFF)) <==> ((b0 == 0xE0 && 0xA0 <= b1) || (b0
                == 0xED && b1 <= 0x9F) || (0xE1 <= b0 && b0 != 0xED)))
        }),
{
}

proof fn lemma_width_4(b0: u8, b1: u8, b2: u8, b3: u8)
    by (bit_vector)
    requires
        0xF0 <= b0 <= 0xF7,
        0x80 <= b1 <= 0xBF,
        0x80 <= b2 <= 0xBF,
        0x80 <= b3 <= 0xBF,
    ensures
        ({
            let cp = (((((b0 & 0x07) as u32) << 18) | (((b1 & 0x3F) as u32) << 12)) | (((b2
                & 0x3F) as u32) << 6)) | ((b3 & 0x3F) as u32);
            (0x10000 <= cp <= 0x10FFFF) <==> ((b0 == 0xF0 && 0x90 <= b1) || (b0 == 0xF4 && b1
                <= 0x8F) || (0xF1 <= b0 && b0 <= 0xF3))
        }),
{
}

/// Reads the scalar encoded at position `i`, if the bytes there begin a
/// well-formed encoding, and says how many bytes the decoder consumes:
/// the encoding's length on success, the maximal ill-formed subpart's
/// length otherwise.
fn first_scalar_step(bytes: &Vec<u8>, i: usize) -> (r: (Option<u32>, usize))
    requires
        i < bytes@.len(),
    ensures
        ({
            let rest = bytes@.skip(i as int);
            &&& (valid_first_scalar(rest) ==> r.0 == Some(decode_first_scalar(rest)) && r.1
                == length_of_first_scalar(rest))
            &&& (!valid_first_scalar(rest) ==> r.0 is None && r.1 == invalid_advance(rest))
            &&& 1 <= r.1
            &&& i + r.1 <= bytes@.len()
            &&& (r.0 matches Some(v) ==> is_scalar(v))
        }),
{
    let ghost rest = bytes@.skip(i as int);
    let n = bytes.len();
    let b0 = bytes[i];
    proof {
        assert(rest[0] == bytes@[i as int]);
        assert(rest.len() == n - i);
    }
    if b0 <= 0x7F {
        proof {
            lemma_width_1(b0);
        }
        (Some(b0 as u32), 1)
    } else if 0xC0 <= b0 && b0 <= 0xDF {
        if i + 1 < n && 0x80 <= bytes[i + 1] && bytes[i + 1] <= 0xBF {
            let b1 = bytes[i + 1];
            proof {
                assert(rest[1] == bytes@[i + 1]);
            }
            let cp: u32 = (((b0 & 0x1F) as u32) << 6) | ((b1 & 0x3F) as u32);
            if cp >= 0x80 {
                proof {
                    lemma_width_2(b0, b1);
                }
                (Some(cp), 2)
            } else {
                (None, 1)
            }
        } else {
            (None, 1)
        }
    } else if 0xE0 <= b0 && b0 <= 0xEF {
        let b1ok = if i + 1 < n {
            let b1 = bytes[i + 1];
            if b0 == 0xE0 {
                0xA0 <= b1 && b1 <= 0xBF
            } else if b0 == 0xED {
                0x80 <= b1 && b1 <= 0x9F
            } else {
                0x80 <= b1 && b1 <= 0xBF
            }
        } else {
            false
        };
        proof {
            if i + 1 < n {
                assert(rest[1] == bytes@[i + 1]);
            }
            assert(b1ok == (rest.len() >= 2 && second_byte_ok(b0, rest[1])));
        }
        if b1ok {
            let b1 = bytes[i + 1];
            if i + 2 < n && 0x80 <= bytes[i + 2] && bytes[i + 2] <= 0xBF {
                let b2 = bytes[i + 2];
                proof {
                    assert(rest[2] == bytes@[i + 2]);
                    lemma_width_3(b0, b1, b2);
                }
                let cp: u32 = ((((b0 & 0x0F) as u32) << 12) | (((b1 & 0x3F) as u32) << 6)) | ((b2
                    & 0x3F) as u32);
                (Some(cp), 3)
            } else {
                (None, 2)
            }
        } else {
            proof {
                if rest.len() >= 3 && is_continuation_byte(rest[1]) && is_continuation_byte(
                    rest[2],
                ) {
                    lemma_width_3(b0, rest[1], rest[2]);
                }
            }
            (None, 1)
        }
    } else if 0xF0 <= b0 && b0 <= 0xF4 {
        let b1ok = if i + 1 < n {
            let b1 = bytes[i + 1];
            if b0 == 0xF0 {
                0x90 <= b1 && b1 <= 0xBF
            } else if b0 == 0xF4 {
                0x80 <= b1 && b1 <= 0x8F
            } else {
                0x80 <= b1 && b1 <= 0xBF
            }
        } else {
            false
        };
        proof {
            if i + 1 < n {
                assert(rest[1] == bytes@[i + 1]);
            }
            assert(b1ok == (rest.len() >= 2 && second_byte_ok(b0, rest[1])));
        }
        if b1ok {
            let b1 = bytes[i + 1];
            if i + 2 < n && 0x80 <= bytes[i + 2] && bytes[i + 2] <= 0xBF {
                let b2 = bytes[i + 2];
                proof {
                    assert(rest[2] == bytes@[i + 2]);
                }
                if i + 3 < n && 0x80 <= bytes[i + 3] && bytes[i + 3] <= 0xBF {
                    let b3 = bytes[i + 3];
                    proof {
                        assert(rest[3] == bytes@[i + 3]);
                        lemma_width_4(b0, b1, b2, b3);
                    }
                    let cp: u32 = (((((b0 & 0x07) as u32) << 18) | (((b1 & 0x3F) as u32) << 12))
                        | (((b2 & 0x3F) as u32) << 6)) | ((b3 & 0x3F) as u32);
                    (Some(cp), 4)
                } else {
                    (None, 3)
                }
            } else {
                (None, 2)
            }
        } else {
            proof {
                if rest.len() >= 4 && is_continuation_byte(rest[1]) && is_continuation_byte(rest[2])
                    && is_continuation_byte(rest[3]) {
                    lemma_width_4(b0, rest[1], rest[2], rest[3]);
                }
            }
            (None, 1)
        }
    } else {
        proof {
            if 0xF5 <= b0 && b0 <= 0xF7 && rest.len() >= 4 && is_continuation_byte(rest[1])
                && is_continuation_byte(rest[2]) && is_continuation_byte(rest[3]) {
                lemma_width_4(b0, rest[1], rest[2], rest[3]);
            }
        }
        (None, 1)
    }
}

/// Decodes a byte buffer leniently and reports whether it was valid UTF-8.
/// The characters are always the lossy decoding; when the buffer is valid
/// that is also the strict decoding.
pub fn utf8_chars(bytes: &Vec<u8>) -> (r: (Vec<char>, bool))
    ensures
        r.0@ == lossy_decode(bytes@),
        r.1 == valid_utf8(bytes@),
{
    let ghost s = bytes@;
    let n = bytes.len();
    let mut out: Vec<char> = Vec::new();
    let mut ok = true;
    let mut i: usize = 0;
    proof {
        assert(s.skip(0) =~= s);
        assert(out@ + lossy_decode(s) =~= lossy_decode(s));
    }
    while i < n
        invariant
            i <= n,
            n == s.len(),
            s == bytes@,
            lossy_decode(s) == out@ + lossy_decode(s.skip(i as int)),
            valid_utf8(s) <==> (ok && valid_utf8(s.skip(i as int))),
        decreases n - i,
    {
        let ghost rest = s.skip(i as int);
        let ghost out_before = out@;
        let (cp, adv) = first_scalar_step(bytes, i);
        proof {
            assert(rest.len() > 0);
            assert(s.skip(i + adv) =~= rest.skip(adv as int));
        }
        match cp {
            Some(v) => {
                let c = match crate::chars::char_from_u32(v) {
                    Some(c) => c,
                    None => vstd::pervasive::unreached(),
                };
                out.push(c);
                proof {
                    vstd::utf8::char_u32_cast(c, v);
                    assert(pop_first_scalar(rest) =~= rest.skip(adv as int));
                    assert(lossy_decode(rest) == seq![c] + lossy_decode(rest.skip(adv as int)));
                    assert(out_before + (seq![c] + lossy_decode(rest.skip(adv as int))) =~= out@
                        + lossy_decode(rest.skip(adv as int)));
                }
            },
            None => {
                out.push('\u{FFFD}');
                ok = false;
                proof {
                    assert(lossy_decode(rest) == seq!['\u{FFFD}'] + lossy_decode(
                        rest.skip(adv as int),
                    ));
                    assert(out_before + (seq!['\u{FFFD}'] + lossy_decode(rest.skip(adv as int)))
                        =~= out@ + lossy_decode(rest.skip(adv as int)));
                    assert(!valid_utf8(rest));
                }
            },
        }
        i += adv;
    }
    proof {
        assert(s.skip(n as int) =~= Seq::<u8>::empty());
        assert(out@ + lossy_decode(s.skip(n as int)) =~= out@);
    }
    (out, ok)
}

} // verus!
