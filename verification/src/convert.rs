//! The two conversions on text: a decimal numeral to its Fibonacci-base
//! numeral, and a Fibonacci-base digit string to the number it spells.

use crate::fib_u64::{decode_spec, encode_spec, parse_spec, Fib64};
use std::str::FromStr;
use vstd::prelude::*;

verus! {

/// Whether `c` is one of the decimal digits `'0'` to `'9'`.
pub open spec fn is_decimal_digit(c: char) -> bool {
    '0' <= c <= '9'
}

/// Whether `s` holds decimal digits only.
pub open spec fn all_decimal_digits(s: Seq<char>) -> bool {
    forall|i: int| 0 <= i < s.len() ==> is_decimal_digit(#[trigger] s[i])
}

/// The number that a string of decimal digits spells, most significant digit
/// first. Zeros at the front add nothing.
pub open spec fn decimal_value(s: Seq<char>) -> nat
    decreases s.len(),
{
    if s.len() == 0 {
        0
    } else {
        10 * decimal_value(s.drop_last()) + (s.last() as u32 - '0' as u32) as nat
    }
}

/// The number that a decimal numeral stands for, where it is one that fits
/// into 64 bits: at most one `'+'`, then one or more decimal digits and
/// nothing else.
pub open spec fn decimal_spec(s: Seq<char>) -> Option<u64> {
    let digits = if s.len() > 0 && s[0] == '+' {
        s.drop_first()
    } else {
        s
    };
    if digits.len() > 0 && all_decimal_digits(digits) && decimal_value(digits) <= u64::MAX {
        Some(decimal_value(digits) as u64)
    } else {
        None
    }
}

/// Calls `str::parse::<u64>` of the standard library, which is not verified
/// here. The contract is what its documentation says: the text is read as an
/// optional `+` followed by decimal digits only, anything else is an error,
/// as is the empty string, a sign alone, and a number too large for `u64`.
#[verifier::external_body]
fn parse_decimal(value: &str) -> (r: Option<u64>)
    ensures
        r == decimal_spec(value@),
{
    match value.parse::<u64>() {
        Ok(n) => Some(n),
        Err(_) => None,
    }
}

/// Reads `value` as a decimal numeral and encodes the number in Fibonacci
/// base; `None` where `value` is no decimal numeral of a 64-bit number.
pub fn convert_decimal(value: &str) -> (r: Option<Fib64>)
    ensures
        r == match decimal_spec(value@) {
            Some(n) => Some(encode_spec(n)),
            None => None,
        },
{
    match parse_decimal(value) {
        Some(n) => Some(Fib64::from(n)),
        None => None,
    }
}

/// Reads `value` as a Fibonacci-base digit string and decodes it; `None`
/// where `value` is empty or holds anything but the digits `'0'` and `'1'`.
pub fn convert_fib(value: &str) -> (r: Option<u64>)
    ensures
        r == match parse_spec(value@) {
            Ok(f) => Some(decode_spec(f)),
            Err(_) => None,
        },
{
    match Fib64::from_str(value) {
        Ok(f) => Some(u64::from(f)),
        Err(_) => None,
    }
}

} // verus!
