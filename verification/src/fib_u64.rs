//! The Fibonacci-base numeral type: a 64-bit pattern in which bit `pos`
//! stands for the Fibonacci number `fib(pos + 1)`.

use crate::bits::{bits_of, with_bit, Bits, Fiddle};
use crate::sequence::{fib, lemma_fib_values, SEQ};
use crate::zeckendorf::{greedy, lemma_value_bound, value_below, value_of};
use std::str::FromStr;
use vstd::prelude::*;
use vstd::std_specs::convert::FromSpecImpl;
use vstd::string::StringSliceAdditionalSpecFns;

verus! {

/// A number in Fibonacci base. The field is the bit pattern: the number is
/// the sum of `fib(pos + 1)` over the set bits `pos`.
#[derive(Copy, Clone, Debug)]
pub struct Fib64(pub u64);

/// Why a digit string is no Fibonacci-base numeral.
#[derive(Debug)]
pub enum ParseFib64Error {
    /// The string has no characters.
    Empty,
    /// The string holds a character other than `'0'` and `'1'`.
    InvalidDigit,
}

/// The numeral of `n`: the greedy decomposition of `n` over all 64 bits.
pub open spec fn encode_spec(n: u64) -> Fib64 {
    Fib64(greedy(n as nat, 64))
}

/// The number that the numeral `f` stands for.
pub open spec fn decode_spec(f: Fib64) -> u64 {
    value_of(f.0) as u64
}

/// The byte that stands for the digit `'0'` in an ASCII string.
const ASCII_ZERO: u8 = 0x30;

/// The byte that stands for the digit `'1'` in an ASCII string.
const ASCII_ONE: u8 = 0x31;

/// Whether `c` is a digit of a Fibonacci-base numeral.
pub open spec fn is_digit(c: char) -> bool {
    c == '0' || c == '1'
}

/// Whether `s` holds digits only.
pub open spec fn all_digits(s: Seq<char>) -> bool {
    forall|i: int| 0 <= i < s.len() ==> is_digit(#[trigger] s[i])
}

/// The pattern that a digit string spells, most significant digit first: the
/// last character is bit 0, the one before it bit 1, and so on. Every `'1'`
/// sets its bit; any other character sets none. A `'1'` more than 64 places
/// from the end lands on its place modulo 64, where a shift of a 64-bit word
/// puts it.
pub open spec fn pattern_of(s: Seq<char>) -> u64
    decreases s.len(),
{
    if s.len() == 0 {
        0
    } else if s[0] == '1' {
        with_bit(pattern_of(s.drop_first()), ((s.len() - 1) % 64) as u64)
    } else {
        pattern_of(s.drop_first())
    }
}

/// What parsing the digit string `s` gives.
pub open spec fn parse_spec(s: Seq<char>) -> Result<Fib64, ParseFib64Error> {
    if s.len() == 0 {
        Err(ParseFib64Error::Empty)
    } else if !all_digits(s) {
        Err(ParseFib64Error::InvalidDigit)
    } else {
        Ok(Fib64(pattern_of(s)))
    }
}

/// `bits` without the `false` entries at its front.
pub open spec fn strip_leading_zeros(bits: Seq<bool>) -> Seq<bool>
    decreases bits.len(),
{
    if bits.len() == 0 || bits[0] {
        bits
    } else {
        strip_leading_zeros(bits.drop_first())
    }
}

/// The digit that stands for a bit.
pub open spec fn digit_of(bit: bool) -> char {
    if bit {
        '1'
    } else {
        '0'
    }
}

/// The digits of each bit of `bits`, in order.
pub open spec fn digits_of_bits(bits: Seq<bool>) -> Seq<char> {
    bits.map_values(|bit: bool| digit_of(bit))
}

/// The digit string of `pattern`: its bits from the highest set one down to
/// bit 0, most significant first. The zero pattern has no set bit, and its
/// digit string is empty.
pub open spec fn digits_of(pattern: u64) -> Seq<char> {
    digits_of_bits(strip_leading_zeros(bits_of(pattern)))
}

/// Joining a bit to the front of a pattern can be done before or after
/// joining the rest.
proof fn lemma_or_regroup(a: u64, b: u64, bit: u64)
    by (bit_vector)
    requires
        bit < 64,
    ensures
        with_bit(a, bit) | b == a | with_bit(b, bit),
{
}

/// Joining the zero word to a pattern changes nothing.
proof fn lemma_or_zero(a: u64)
    by (bit_vector)
    ensures
        a | 0u64 == a,
        0u64 | a == a,
{
}

impl Fib64 {
    /// Writes the numeral as its digit string.
    pub fn to_string(&self) -> (r: String)
        ensures
            r@ == digits_of(self.0),
    {
        let mut buf: String = String::new();
        let mut bits: Bits = self.bits();
        let mut leading: bool = true;
        loop
            invariant
                leading ==> buf@.len() == 0 && strip_leading_zeros(bits@) == strip_leading_zeros(
                    bits_of(self.0),
                ),
                !leading ==> buf@ + digits_of_bits(bits@) == digits_of(self.0),
            ensures
                buf@ == digits_of(self.0),
            decreases bits@.len(),
        {
            let ghost before = bits@;
            let ghost text = buf@;
            match bits.next() {
                None => {
                    break ;
                },
                Some(bit) => {
                    if bit {
                        leading = false;
                    }
                    if !leading {
                        proof {
                            reveal_strlit("1");
                            reveal_strlit("0");
                        }
                        buf.append(if bit { "1" } else { "0" });
                        assert(buf@ + digits_of_bits(bits@) == text + digits_of_bits(before));
                    }
                },
            }
        }
        buf
    }
}

impl FromStr for Fib64 {
    type Err = ParseFib64Error;

    /// Reads a numeral from its digit string, most significant digit first.
    /// The string is taken as it is: neighbouring `'1'` digits are accepted,
    /// and so are zeros at the front. Of a string of more than 64 digits the
    /// `'1'` digits beyond the 64th place from the end wrap around, as
    /// `pattern_of` says.
    fn from_str(s: &str) -> (r: Result<Self, Self::Err>)
        ensures
            r == parse_spec(s@),
    {
        if s.is_empty() {
            return Err(ParseFib64Error::Empty);
        }
        if !s.is_ascii() {
            return Err(ParseFib64Error::InvalidDigit);
        }
        let len: usize = s.as_bytes().len();
        proof {
            vstd::string::is_ascii_spec_bytes(s);
            assert(s.spec_bytes().len() == s@.len());
        }
        let mut n: Fib64 = Fib64(0);
        let mut idx: usize = 0;
        while idx < len
            invariant
                idx <= len,
                len == s@.len(),
                s.is_ascii(),
                all_digits(s@.subrange(len - idx, len as int)),
                n.0 == pattern_of(s@.subrange(len - idx, len as int)),
            decreases len - idx,
        {
            let c: u8 = s.get_ascii(len - 1 - idx);
            proof {
                let before = s@.subrange(len - idx, len as int);
                let now = s@.subrange(len - idx - 1, len as int);
                assert(now.drop_first() == before);
                assert(now[0] == s@[len - idx - 1]);
                assert(now.len() - 1 == idx);
                if c == ASCII_ONE || c == ASCII_ZERO {
                    assert forall|i: int| 0 <= i < now.len() implies is_digit(
                        #[trigger] now[i],
                    ) by {
                        if i > 0 {
                            assert(now[i] == before[i - 1]);
                        }
                    }
                } else {
                    assert(!is_digit(s@[len - idx - 1]));
                }
            }
            if c == ASCII_ONE {
                n = Fib64(n.set((idx % 64) as u64));
            } else if c != ASCII_ZERO {
                return Err(ParseFib64Error::InvalidDigit);
            }
            idx += 1;
        }
        assert(s@.subrange(0, len as int) == s@);
        Ok(n)
    }
}

impl From<u64> for Fib64 {
    /// Encodes `value`: goes through the table from the largest Fibonacci
    /// number down and takes each one that still fits into what is left.
    fn from(value: u64) -> (r: Fib64)
        ensures
            r == encode_spec(value),
    {
        let mut n: u64 = value;
        let mut a: u64 = 0;
        let mut idx: usize = 0;
        proof {
            lemma_or_zero(greedy(value as nat, 64));
        }
        while idx < 64
            invariant
                idx <= 64,
                a | greedy(n as nat, (64 - idx) as nat) == greedy(value as nat, 64),
            decreases 64 - idx,
        {
            let f: u64 = SEQ[idx];
            proof {
                lemma_fib_values();
                assert(f == fib((64 - idx) as nat));
            }
            if !(f > n || n == 0) {
                proof {
                    lemma_or_regroup(
                        a,
                        greedy((n - f) as nat, (63 - idx) as nat),
                        (63 - idx) as u64,
                    );
                }
                n -= f;
                a = a.set(63 - idx as u64);
            }
            idx += 1;
        }
        proof {
            lemma_or_zero(a);
        }
        Fib64(a)
    }
}

impl FromSpecImpl<u64> for Fib64 {
    open spec fn obeys_from_spec() -> bool {
        true
    }

    open spec fn from_spec(v: u64) -> Fib64 {
        encode_spec(v)
    }
}

impl From<Fib64> for u64 {
    /// Decodes `value`: adds up the Fibonacci numbers of its set bits.
    fn from(value: Fib64) -> (r: u64)
        ensures
            r == decode_spec(value),
    {
        let mut bits: Bits = value.bits();
        let mut a: u64 = 0;
        let mut idx: usize = 0;
        loop
            invariant
                idx <= 64,
                bits@ == bits_of(value.0).subrange(idx as int, 64),
                a + value_below(value.0, (64 - idx) as nat) == value_of(value.0),
            ensures
                idx == 64,
                a == value_of(value.0),
            decreases 64 - idx,
        {
            match bits.next() {
                None => {
                    break ;
                },
                Some(is_set) => {
                    if is_set {
                        proof {
                            lemma_fib_values();
                            lemma_value_bound(value.0, 64);
                        }
                        a += SEQ[idx];
                    }
                    idx += 1;
                },
            }
        }
        a
    }
}

impl FromSpecImpl<Fib64> for u64 {
    open spec fn obeys_from_spec() -> bool {
        true
    }

    open spec fn from_spec(v: Fib64) -> u64 {
        decode_spec(v)
    }
}

} // verus!
