//! Exact comparison of string slices and the reading of decimal numbers.

use vstd::prelude::*;
use vstd::string::{StrSliceExecFns, StringSliceAdditionalSpecFns};
use vstd::utf8::encode_utf8_decode_utf8;

verus! {

/// Two character sequences with the same UTF-8 encoding are the same sequence.
pub proof fn lemma_same_bytes_same_text(a: &str, b: &str)
    requires
        a.spec_bytes() == b.spec_bytes(),
    ensures
        a@ == b@,
{
    encode_utf8_decode_utf8(a@);
    encode_utf8_decode_utf8(b@);
}

/// Whether `a` and `b` hold the same text.
pub fn str_eq(a: &str, b: &str) -> (r: bool)
    ensures
        r == (a@ == b@),
{
    let x = a.as_bytes();
    let y = b.as_bytes();
    if x.len() != y.len() {
        return false;
    }
    let n = x.len();
    let mut i: usize = 0;
    while i < n
        invariant
            x@ == a.spec_bytes(),
            y@ == b.spec_bytes(),
            n == x@.len(),
            n == y@.len(),
            i <= n,
            forall|k: int| 0 <= k < i ==> x@[k] == y@[k],
        decreases n - i,
    {
        if x[i] != y[i] {
            return false;
        }
        i += 1;
    }
    proof {
        assert(x@ =~= y@);
        lemma_same_bytes_same_text(a, b);
    }
    true
}

/// An ASCII decimal digit.
pub open spec fn is_digit(c: char) -> bool {
    '0' <= c && c <= '9'
}

/// The number a decimal digit stands for.
pub open spec fn digit_value(c: char) -> int {
    c as int - '0' as int
}

/// Whether `text` consists of decimal digits only.
pub open spec fn all_digits(text: Seq<char>) -> bool {
    forall|i: int| 0 <= i < text.len() ==> is_digit(#[trigger] text[i])
}

/// The number that a run of decimal digits stands for.
pub open spec fn decimal_value(digits: Seq<char>) -> int
    decreases digits.len(),
{
    if digits.len() == 0 {
        0
    } else {
        10 * decimal_value(digits.drop_last()) + digit_value(digits.last())
    }
}

/// The integer that `text` spells in decimal: an optional sign followed by
/// at least one digit and nothing else.
pub open spec fn signed_decimal(text: Seq<char>) -> Option<int> {
    if text.len() > 0 && (text[0] == '-' || text[0] == '+') {
        let digits = text.subrange(1, text.len() as int);
        if digits.len() > 0 && all_digits(digits) {
            Some(
                if text[0] == '-' {
                    -decimal_value(digits)
                } else {
                    decimal_value(digits)
                },
            )
        } else {
            None
        }
    } else if text.len() > 0 && all_digits(text) {
        Some(decimal_value(text))
    } else {
        None
    }
}

/// The 64-bit integer that `text` spells, if it spells one that fits.
pub open spec fn integer_of(text: Seq<char>) -> Option<i64> {
    match signed_decimal(text) {
        Some(value) => if i64::MIN <= value <= i64::MAX {
            Some(value as i64)
        } else {
            None
        },
        None => None,
    }
}

/// Reads one decimal digit.
pub fn digit(c: char) -> (d: Option<i32>)
    ensures
        d is Some <==> is_digit(c),
        d matches Some(v) ==> v == digit_value(c) && 0 <= v <= 9,
{
    if c >= '0' && c <= '9' {
        Some((c as u32 - '0' as u32) as i32)
    } else {
        None
    }
}

/// A run of digits is worth at least as much as any run it extends.
proof fn lemma_decimal_value_step(digits: Seq<char>)
    requires
        digits.len() > 0,
        all_digits(digits),
    ensures
        decimal_value(digits) == 10 * decimal_value(digits.drop_last()) + digit_value(
            digits.last(),
        ),
        decimal_value(digits.drop_last()) >= 0,
        decimal_value(digits) >= decimal_value(digits.drop_last()),
    decreases digits.len(),
{
    let shorter = digits.drop_last();
    if shorter.len() > 0 {
        assert forall|i: int| 0 <= i < shorter.len() implies is_digit(#[trigger] shorter[i]) by {
            assert(shorter[i] == digits[i]);
        }
        lemma_decimal_value_step(shorter);
    }
    assert(is_digit(digits[digits.len() - 1]));
}

/// Reads a decimal integer: an optional `+` or `-`, then digits. Text of any
/// other shape, and a number too large for 64 bits, reads as `None`.
pub fn parse_i64(text: &str) -> (parsed: Option<i64>)
    ensures
        parsed == integer_of(text@),
{
    let n = text.unicode_len();
    if n == 0 {
        return None;
    }
    let first = text.get_char(0);
    let negative = first == '-';
    let start: usize = if first == '-' || first == '+' {
        1
    } else {
        0
    };
    if start == n {
        return None;
    }
    let ghost digits = text@.subrange(start as int, n as int);
    proof {
        if start == 0 {
            assert(digits =~= text@);
        }
    }
    let limit: i128 = 0x8000_0000_0000_0000;
    let mut magnitude: i128 = 0;
    let mut too_large = false;
    let mut i: usize = start;
    while i < n
        invariant
            start <= i <= n,
            n == text@.len(),
            limit == 0x8000_0000_0000_0000,
            digits == text@.subrange(start as int, n as int),
            first == text@[0],
            start == 1 <==> first == '-' || first == '+',
            start == 0 ==> digits == text@,
            all_digits(text@.subrange(start as int, i as int)),
            !too_large ==> 0 <= magnitude <= limit && magnitude == decimal_value(
                text@.subrange(start as int, i as int),
            ),
            too_large ==> decimal_value(text@.subrange(start as int, i as int)) > limit,
        decreases n - i,
    {
        let c = text.get_char(i);
        let ghost seen = text@.subrange(start as int, i as int);
        let ghost next = text@.subrange(start as int, i + 1);
        proof {
            assert(next.drop_last() =~= seen);
            assert(next.last() == c);
        }
        match digit(c) {
            Some(d) => {
                proof {
                    assert forall|k: int| 0 <= k < next.len() implies is_digit(
                        #[trigger] next[k],
                    ) by {
                        if k < seen.len() {
                            assert(next[k] == seen[k]);
                        }
                    }
                    lemma_decimal_value_step(next);
                }
                if !too_large {
                    magnitude = magnitude * 10 + d as i128;
                    if magnitude > limit {
                        too_large = true;
                    }
                }
            },
            None => {
                proof {
                    assert(digits[i - start] == c);
                    assert(!all_digits(digits));
                }
                return None;
            },
        }
        i += 1;
    }
    proof {
        assert(text@.subrange(start as int, i as int) == digits);
    }
    if too_large {
        None
    } else if negative {
        Some((-magnitude) as i64)
    } else if magnitude > i64::MAX as i128 {
        None
    } else {
        Some(magnitude as i64)
    }
}

} // verus!
