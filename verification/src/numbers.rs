//! Parsing decimal tokens into unsigned integers.
//!
//! A numeric token is an optional leading `+` followed by at least one ASCII
//! decimal digit; its value must fit the target width. This matches how the
//! console's command fields are read.

use vstd::prelude::*;

verus! {

/// An ASCII decimal digit.
pub open spec fn is_digit(c: char) -> bool {
    48 <= c as u32 && c as u32 <= 57
}

/// The numeric value of an ASCII decimal digit.
pub open spec fn digit_val(c: char) -> nat {
    (c as u32 - 48) as nat
}

/// Every character of `t` is an ASCII decimal digit.
pub open spec fn all_digits(t: Seq<char>) -> bool {
    forall|i: int| 0 <= i < t.len() ==> is_digit(#[trigger] t[i])
}

/// The value of a sequence of decimal digits, most significant first.
pub open spec fn digits_val(t: Seq<char>) -> nat
    decreases t.len(),
{
    if t.len() == 0 {
        0
    } else {
        digits_val(t.drop_last()) * 10 + digit_val(t.last())
    }
}

/// The digit part of a numeric token: one optional leading `+` is accepted.
pub open spec fn digits_of(t: Seq<char>) -> Seq<char> {
    if t.len() >= 1 && t[0] == '+' {
        t.drop_first()
    } else {
        t
    }
}

/// What parsing a token as a `u64` yields: the value of its digits, or
/// nothing when the digits are absent, malformed, or too large.
pub open spec fn parse_u64_spec(t: Seq<char>) -> Option<u64> {
    let d = digits_of(t);
    if d.len() > 0 && all_digits(d) && digits_val(d) <= u64::MAX {
        Some(digits_val(d) as u64)
    } else {
        None
    }
}

/// What parsing a token as a `u8` yields.
pub open spec fn parse_u8_spec(t: Seq<char>) -> Option<u8> {
    let d = digits_of(t);
    if d.len() > 0 && all_digits(d) && digits_val(d) <= u8::MAX {
        Some(digits_val(d) as u8)
    } else {
        None
    }
}

/// The value of a digit sequence never shrinks as digits are appended.
proof fn lemma_digits_val_prefix(t: Seq<char>, j: int)
    requires
        0 <= j <= t.len(),
    ensures
        digits_val(t.subrange(0, j)) <= digits_val(t),
    decreases t.len() - j,
{
    if j < t.len() {
        assert(t.subrange(0, j + 1).drop_last() =~= t.subrange(0, j));
        assert(t.subrange(0, j + 1).last() == t[j]);
        lemma_digits_val_prefix(t, j + 1);
    } else {
        assert(t.subrange(0, t.len() as int) =~= t);
    }
}

/// Parses a token, given as its characters, into a `u64`.
#[verifier::loop_isolation(false)]
pub fn parse_u64_chars(t: &Vec<char>) -> (r: Option<u64>)
    ensures
        r == parse_u64_spec(t@),
{
    let ghost d = digits_of(t@);
    let n = t.len();
    let start: usize = if n >= 1 && t[0] == '+' {
        1
    } else {
        0
    };
    proof {
        assert(d =~= t@.subrange(start as int, n as int));
    }
    if start >= n {
        return None;
    }
    let mut value: u64 = 0;
    let mut i: usize = start;
    while i < n
        invariant
            start <= i <= n,
            n == t@.len(),
            d == t@.subrange(start as int, n as int),
            all_digits(d.subrange(0, i - start)),
            value == digits_val(d.subrange(0, i - start)),
        decreases n - i,
    {
        let cv = t[i] as u32;
        proof {
            assert(d[i - start] == t@[i as int]);
            assert(d.subrange(0, i - start + 1).drop_last() =~= d.subrange(0, i - start));
            assert(d.subrange(0, i - start + 1).last() == d[i - start]);
        }
        if !(48 <= cv && cv <= 57) {
            proof {
                assert(!is_digit(d[i - start]));
            }
            return None;
        }
        let digit: u64 = (cv - 48) as u64;
        let next = match value.checked_mul(10) {
            Some(v10) => v10.checked_add(digit),
            None => None,
        };
        match next {
            Some(v) => {
                value = v;
            },
            None => {
                proof {
                    assert(digits_val(d.subrange(0, i - start + 1)) > u64::MAX);
                    lemma_digits_val_prefix(d, i - start + 1);
                }
                return None;
            },
        }
        i += 1;
    }
    proof {
        assert(d.subrange(0, n - start) =~= d);
    }
    Some(value)
}

/// Parses a token, given as its characters, into a `u8`.
pub fn parse_u8_chars(t: &Vec<char>) -> (r: Option<u8>)
    ensures
        r == parse_u8_spec(t@),
{
    match parse_u64_chars(t) {
        Some(v) => {
            if v <= 255 {
                Some(v as u8)
            } else {
                None
            }
        },
        None => None,
    }
}

} // verus!
