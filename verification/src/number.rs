use vstd::prelude::*;

use crate::error::AsmError;
use crate::text::{all_digits, digit_val, digits_value, is_digit_char, lemma_digits_value_bound, lemma_pow10_mono, pow10};

verus! {

/// An unsigned decimal literal of at most 10 digits.  A leading sign is
/// never part of a number; it belongs to the enclosing expression.
#[derive(Debug, PartialEq)]
pub struct Number(pub u32);

/// The success rule for numeric literal text: non-empty, at most 10
/// characters, all digits, and a value that fits the numeric type.
pub open spec fn is_valid_number(s: Seq<char>) -> bool {
    &&& 1 <= s.len() <= 10
    &&& all_digits(s)
    &&& digits_value(s) <= u32::MAX
}

impl Number {
    /// Parses an unsigned decimal literal.
    pub fn from_str(s: &str) -> (r: Result<Number, AsmError>)
        ensures
            r is Ok <==> is_valid_number(s@),
            r matches Ok(n) ==> n.0 == digits_value(s@),
            r matches Err(e) ==> e == if s@.len() > 10 {
                AsmError::NumberTooLong
            } else {
                AsmError::InvalidDigits
            },
    {
        let len = s.unicode_len();
        if len > 10 {
            return Err(AsmError::NumberTooLong);
        }
        if len == 0 {
            return Err(AsmError::InvalidDigits);
        }
        let mut acc: u64 = 0;
        let mut i: usize = 0;
        while i < len
            invariant
                0 <= i <= len,
                len == s@.len(),
                1 <= len <= 10,
                forall|j: int| 0 <= j < i ==> is_digit_char(#[trigger] s@[j]),
                acc == digits_value(s@.subrange(0, i as int)),
                acc < 10000000000,
            decreases len - i,
        {
            let c = s.get_char(i);
            if !('0' <= c && c <= '9') {
                return Err(AsmError::InvalidDigits);
            }
            let d = (c as u32) - ('0' as u32);
            proof {
                let pre = s@.subrange(0, i as int);
                let cur = s@.subrange(0, i + 1 as int);
                assert(cur.drop_last() =~= pre);
                assert(cur.last() == s@[i as int]);
                assert(digits_value(cur) == 10 * digits_value(pre) + digit_val(s@[i as int]));
                assert(all_digits(cur));
                lemma_digits_value_bound(cur);
                lemma_pow10_mono(i + 1, 10);
                reveal_with_fuel(pow10, 11);
                assert(pow10(10) == 10000000000);
            }
            acc = acc * 10 + (d as u64);
            i += 1;
        }
        proof {
            assert(s@.subrange(0, len as int) =~= s@);
        }
        if acc > 0xFFFF_FFFF {
            return Err(AsmError::InvalidDigits);
        }
        Ok(Number(acc as u32))
    }
}

} // verus!
