//! Decimal parsing of scripting-side numbers.
//!
//! Script code passes numbers as strings and uses them as array indexes;
//! a string that does not parse as a 32-bit integer becomes the sentinel
//! value -1 rather than an error.

use vstd::prelude::*;
use vstd::string::StrSliceExecFns;

verus! {

/// True for the ten ASCII decimal digit characters.
pub open spec fn is_digit_char(c: char) -> bool {
    0x30 <= c as u32 <= 0x39
}

/// The numeric value of one decimal digit character.
pub open spec fn digit_value(c: char) -> int {
    (c as u32) - 0x30
}

/// True when every character of the sequence is a decimal digit.
pub open spec fn all_digits(s: Seq<char>) -> bool {
    forall|i: int| 0 <= i < s.len() ==> is_digit_char(#[trigger] s[i])
}

/// The value of a sequence of decimal digits, most significant first.
pub open spec fn digits_value(s: Seq<char>) -> int
    decreases s.len(),
{
    if s.len() == 0 {
        0
    } else {
        digits_value(s.drop_last()) * 10 + digit_value(s.last())
    }
}

/// The digits of a decimal integer string: everything after one optional
/// leading sign character.
pub open spec fn int_body(s: Seq<char>) -> Seq<char> {
    if s.len() > 0 && (s[0] == '+' || s[0] == '-') {
        s.drop_first()
    } else {
        s
    }
}

/// True when the string carries a leading minus sign.
pub open spec fn int_negative(s: Seq<char>) -> bool {
    s.len() > 0 && s[0] == '-'
}

/// True when the string is a decimal integer: an optional sign followed by
/// at least one digit and nothing else.
pub open spec fn parses_as_int(s: Seq<char>) -> bool {
    int_body(s).len() > 0 && all_digits(int_body(s))
}

/// The signed value of a decimal integer string.
pub open spec fn parsed_value(s: Seq<char>) -> int {
    if int_negative(s) {
        -digits_value(int_body(s))
    } else {
        digits_value(int_body(s))
    }
}

/// What the string-to-integer bridge returns: the value of a decimal
/// integer string that fits a 32-bit signed integer, and -1 for every
/// other string.
pub open spec fn spec_string_to_int(s: Seq<char>) -> int {
    if parses_as_int(s) && -0x8000_0000 <= parsed_value(s) <= 0x7FFF_FFFF {
        parsed_value(s)
    } else {
        -1
    }
}

/// The value of an all-digit sequence is never negative.
proof fn lemma_digits_value_nonneg(s: Seq<char>)
    requires
        all_digits(s),
    ensures
        digits_value(s) >= 0,
    decreases s.len(),
{
    if s.len() > 0 {
        assert(all_digits(s.drop_last()));
        lemma_digits_value_nonneg(s.drop_last());
    }
}

/// The value of an all-digit sequence is at least the value of any of its
/// prefixes: appending digits never shrinks the value.
proof fn lemma_digits_value_prefix(s: Seq<char>, k: int)
    requires
        all_digits(s),
        0 <= k <= s.len(),
    ensures
        digits_value(s) >= digits_value(s.take(k)),
    decreases s.len() - k,
{
    if k < s.len() {
        lemma_digits_value_prefix(s, k + 1);
        assert(s.take(k + 1).drop_last() =~= s.take(k));
        assert(all_digits(s.take(k)));
        lemma_digits_value_nonneg(s.take(k));
    } else {
        assert(s.take(k) =~= s);
    }
}

/// Parses a decimal 32-bit integer, yielding -1 when the string is not a
/// decimal integer or does not fit; the sentinel suits use as an array
/// index on the scripting side, where -1 signals failure.
pub fn string_to_int(number: String) -> (r: i32)
    ensures
        r as int == spec_string_to_int(number@),
{
    let ghost t = number@;
    let ghost body = int_body(t);
    let s = number.as_str();
    let len = s.unicode_len();
    let mut start: usize = 0;
    let mut negative = false;
    if len > 0 {
        let c0 = s.get_char(0);
        if c0 == '-' {
            negative = true;
            start = 1;
        } else if c0 == '+' {
            start = 1;
        }
    }
    proof {
        if start == 1 {
            assert(body =~= t.drop_first());
        } else {
            assert(body =~= t);
        }
        assert(negative == int_negative(t));
    }
    if start == len {
        return -1;
    }
    let mut mag: u64 = 0;
    let mut over = false;
    let mut j = start;
    proof {
        assert(body.take(0) =~= Seq::<char>::empty());
    }
    while j < len
        invariant
            start <= j <= len,
            t == number@,
            len == t.len(),
            s@ == t,
            start == (if t.len() > 0 && (t[0] == '+' || t[0] == '-') {
                1int
            } else {
                0int
            }),
            negative == int_negative(t),
            body == int_body(t),
            body.len() == len - start,
            forall|m: int| 0 <= m < j - start ==> is_digit_char(#[trigger] body[m]),
            !over ==> mag == digits_value(body.take(j - start)),
            over ==> digits_value(body.take(j - start)) > 0xFFFF_FFFF,
        decreases len - j,
    {
        let c = s.get_char(j);
        proof {
            assert(body[j - start] == t[j as int]);
        }
        let u = c as u32;
        if u < 0x30 || u > 0x39 {
            proof {
                assert(!all_digits(body));
            }
            return -1;
        }
        let d = (u - 0x30) as u64;
        proof {
            assert(body.take(j - start + 1).drop_last() =~= body.take(j - start));
            assert(body.take(j - start + 1).last() == body[j - start]);
        }
        if over {
            proof {
                assert(forall|m: int| 0 <= m < j - start + 1 ==> is_digit_char(
                    #[trigger] body.take(j - start + 1)[m],
                ));
                assert(all_digits(body.take(j - start + 1)));
                lemma_digits_value_prefix(body.take(j - start + 1), j - start);
                assert(body.take(j - start + 1).take(j - start) =~= body.take(j - start));
            }
        } else if mag > 0xFFFF_FFFF {
            over = true;
        } else {
            mag = mag * 10 + d;
        }
        j += 1;
    }
    proof {
        assert(body.take(len - start) =~= body);
        assert(all_digits(body));
        assert(parses_as_int(t));
        lemma_digits_value_nonneg(body);
    }
    if over {
        return -1;
    }
    if negative {
        if mag > 0x8000_0000 {
            -1
        } else if mag == 0x8000_0000 {
            -0x8000_0000
        } else {
            -(mag as i32)
        }
    } else {
        if mag > 0x7FFF_FFFF {
            -1
        } else {
            mag as i32
        }
    }
}

} // verus!
