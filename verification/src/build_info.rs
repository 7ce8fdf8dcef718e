//! The build metadata shown in the settings window.

use vstd::prelude::*;
use crate::text::chars_of;

verus! {

/// Whether a character is an ASCII decimal digit.
pub open spec fn is_digit(c: char) -> bool {
    '0' <= c <= '9'
}

/// Whether every character of `s` is an ASCII decimal digit.
pub open spec fn all_digits(s: Seq<char>) -> bool {
    forall|i: int| 0 <= i < s.len() ==> is_digit(#[trigger] s[i])
}

/// The value of a run of decimal digits.
pub open spec fn digits_value(s: Seq<char>) -> nat
    decreases s.len(),
{
    if s.len() == 0 {
        0
    } else {
        digits_value(s.drop_last()) * 10 + (s.last() as nat - '0' as nat) as nat
    }
}

/// The unsigned number a text denotes: an optional `+`, then one or more
/// decimal digits; `None` for any other text.
pub open spec fn decimal_number(s: Seq<char>) -> Option<nat> {
    let digits = if s.len() > 0 && s[0] == '+' { s.drop_first() } else { s };
    if digits.len() > 0 && all_digits(digits) {
        Some(digits_value(digits))
    } else {
        None
    }
}

/// The build time recorded at compile time (seconds since the Unix epoch),
/// read from its text; 0 where the text is no number that fits in a `u64`.
pub fn build_timestamp(text: &str) -> (r: u64)
    ensures
        match decimal_number(text@) {
            Some(n) => r == (if n <= u64::MAX { n } else { 0 }),
            None => r == 0,
        },
{
    let cs = chars_of(text);
    let n = cs.len();
    let start: usize = if n > 0 && cs[0] == '+' { 1 } else { 0 };
    let ghost digits = if text@.len() > 0 && text@[0] == '+' { text@.drop_first() } else { text@ };
    assert(digits =~= cs@.subrange(start as int, n as int));
    if start == n {
        return 0;
    }
    let mut value: u64 = 0;
    let mut overflow = false;
    let mut i = start;
    while i < n
        invariant
            cs@ == text@,
            n == cs@.len(),
            start <= i <= n,
            digits == cs@.subrange(start as int, n as int),
            digits == (if text@.len() > 0 && text@[0] == '+' { text@.drop_first() } else { text@ }),
            forall|k: int| start <= k < i ==> is_digit(#[trigger] cs@[k]),
            !overflow ==> value == digits_value(cs@.subrange(start as int, i as int)),
            overflow ==> digits_value(cs@.subrange(start as int, i as int)) > u64::MAX,
        decreases n - i,
    {
        let c = cs[i];
        if !('0' <= c && c <= '9') {
            assert(!is_digit(digits[i - start]));
            return 0;
        }
        let d = (c as u32 - '0' as u32) as u64;
        let ghost prefix = cs@.subrange(start as int, i + 1);
        assert(prefix.drop_last() =~= cs@.subrange(start as int, i as int));
        assert(prefix.last() == c);
        if !overflow {
            match value.checked_mul(10) {
                Some(v10) => match v10.checked_add(d) {
                    Some(v) => {
                        value = v;
                    },
                    None => {
                        overflow = true;
                    },
                },
                None => {
                    overflow = true;
                    assert(digits_value(prefix) >= digits_value(prefix.drop_last()) * 10);
                },
            }
        } else {
            assert(digits_value(prefix) >= digits_value(prefix.drop_last()) * 10) by (nonlinear_arith)
                requires
                    digits_value(prefix) == digits_value(prefix.drop_last()) * 10 + (prefix.last() as nat - '0' as nat) as nat,
            ;
            assert(digits_value(prefix.drop_last()) * 10 >= digits_value(prefix.drop_last())) by (nonlinear_arith);
        }
        i = i + 1;
    }
    assert(cs@.subrange(start as int, n as int) == digits);
    if overflow {
        0
    } else {
        value
    }
}

} // verus!
