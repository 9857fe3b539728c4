//! What holds of the codec as a whole: encoding and decoding are inverse to
//! each other, encodings have no neighbouring digits, and digit strings and
//! patterns go back and forth without change.

use crate::bits::{bits_of, is_set, lemma_same_bits, lemma_set_bit};
use crate::fib_u64::{
    all_digits, decode_spec, digit_of, digits_of, digits_of_bits, encode_spec, is_digit,
    parse_spec, pattern_of, strip_leading_zeros, Fib64, ParseFib64Error,
};
use crate::sequence::lemma_fib_values;
use crate::zeckendorf::{
    greedy, is_canonical, lemma_greedy_of_canonical, lemma_greedy_rest, lemma_greedy_sparse,
    lemma_greedy_value, lemma_value_bound, lemma_zero_has_no_bits, value_of,
    MAX_VALUE, SPARSE_LIMIT,
};
use vstd::prelude::*;

verus! {

/// How many digits `pattern` takes when only its lowest `k` bits count: one
/// more than the place of the highest set bit among them, 0 if none is set.
pub open spec fn width(pattern: u64, k: nat) -> nat
    decreases k,
{
    if k == 0 {
        0
    } else if is_set(pattern, (k - 1) as u64) {
        k
    } else {
        width(pattern, (k - 1) as nat)
    }
}

/// The width is at most `k`, marks a set bit unless it is 0, and no bit from
/// there up to `k` is set.
pub proof fn lemma_width(pattern: u64, k: nat)
    requires
        k <= 64,
    ensures
        width(pattern, k) <= k,
        width(pattern, k) > 0 ==> is_set(pattern, (width(pattern, k) - 1) as u64),
        forall|j: u64| width(pattern, k) <= j < k ==> !is_set(pattern, j),
    decreases k,
{
    if k > 0 && !is_set(pattern, (k - 1) as u64) {
        lemma_width(pattern, (k - 1) as nat);
    }
}

/// A bit sequence that starts with `z` entries `false`, followed by `true` or
/// by nothing, loses exactly those `z` entries.
proof fn lemma_strip(bits: Seq<bool>, z: int)
    requires
        0 <= z <= bits.len(),
        forall|i: int| 0 <= i < z ==> !bits[i],
        z < bits.len() ==> bits[z],
    ensures
        strip_leading_zeros(bits) == bits.subrange(z, bits.len() as int),
    decreases z,
{
    if z == 0 {
        assert(bits.subrange(0, bits.len() as int) == bits);
    } else {
        let rest = bits.drop_first();
        assert forall|i: int| 0 <= i < z - 1 implies !rest[i] by {
            assert(rest[i] == bits[i + 1]);
        }
        lemma_strip(rest, z - 1);
        assert(rest.subrange(z - 1, rest.len() as int) == bits.subrange(z, bits.len() as int));
    }
}

/// The digit string of a pattern has as many digits as the pattern is wide,
/// and digit `i` from the left shows bit `width - 1 - i`.
pub proof fn lemma_digits(pattern: u64)
    ensures
        digits_of(pattern).len() == width(pattern, 64),
        forall|i: int|
            0 <= i < width(pattern, 64) ==> #[trigger] digits_of(pattern)[i] == digit_of(
                is_set(pattern, (width(pattern, 64) - 1 - i) as u64),
            ),
{
    let w = width(pattern, 64);
    let bits = bits_of(pattern);
    lemma_width(pattern, 64);
    lemma_strip(bits, 64 - w);
    assert(digits_of(pattern) == digits_of_bits(bits.subrange(64 - w, 64)));
}

/// Bit `j` of the pattern that a digit string of at most 64 digits spells is
/// set exactly when the string has a `'1'` at `j` places from its end.
pub proof fn lemma_pattern_bits(s: Seq<char>, j: u64)
    requires
        s.len() <= 64,
        j < 64,
    ensures
        is_set(pattern_of(s), j) == (j < s.len() && s[s.len() - 1 - j] == '1'),
    decreases s.len(),
{
    if s.len() == 0 {
        lemma_zero_has_no_bits(j);
    } else {
        let rest = s.drop_first();
        lemma_pattern_bits(rest, j);
        if j < rest.len() {
            assert(rest[rest.len() - 1 - j] == s[s.len() - 1 - j]);
        }
        if s[0] == '1' {
            lemma_set_bit(pattern_of(rest), (s.len() - 1) as u64, j);
        }
    }
}

/// Decoding undoes encoding: every number up to `MAX_VALUE`, the largest that
/// 64 Fibonacci digits can spell, comes back from its numeral unchanged.
pub proof fn theorem_decode_inverts_encode(n: u64)
    requires
        n <= MAX_VALUE,
    ensures
        decode_spec(encode_spec(n)) == n,
{
    lemma_fib_values();
    lemma_greedy_value(n as nat, 64);
    lemma_greedy_rest(n as nat, 64);
}

/// A number above `MAX_VALUE` is too large for 64 Fibonacci digits: its
/// numeral decodes to `MAX_VALUE`.
pub proof fn theorem_encode_saturates(n: u64)
    requires
        n > MAX_VALUE,
    ensures
        decode_spec(encode_spec(n)) == MAX_VALUE,
{
    lemma_fib_values();
    lemma_greedy_value(n as nat, 64);
    lemma_greedy_rest(n as nat, 64);
}

/// The numeral of a number below `SPARSE_LIMIT` is a Zeckendorf
/// representation: no two neighbouring bits are set and bit 0 is clear. So
/// its digit string holds no `"11"`.
pub proof fn theorem_encoding_is_sparse(n: u64)
    requires
        n < SPARSE_LIMIT,
    ensures
        is_canonical(encode_spec(n).0),
        forall|i: int|
            0 <= i && i + 1 < digits_of(encode_spec(n).0).len() ==> !(#[trigger] digits_of(
                encode_spec(n).0,
            )[i] == '1' && digits_of(encode_spec(n).0)[i + 1] == '1'),
{
    let p = encode_spec(n).0;
    let w = width(p, 64);
    lemma_fib_values();
    lemma_greedy_sparse(n as nat, 64);
    lemma_digits(p);
    lemma_width(p, 64);
    assert forall|i: int| 0 <= i && i + 1 < digits_of(p).len() implies !(#[trigger] digits_of(
        p,
    )[i] == '1' && digits_of(p)[i + 1] == '1') by {
        let low = (w - 2 - i) as u64;
        assert(digits_of(p)[i + 1] == digit_of(is_set(p, low)));
        assert(digits_of(p)[i] == digit_of(is_set(p, (low + 1) as u64)));
        assert(!(is_set(p, low) && is_set(p, (low + 1) as u64)));
    }
}

/// Writing undoes parsing: a string of 1 to 64 digits that starts with `'1'`
/// parses, and the numeral it gives is written as that same string.
pub proof fn theorem_format_inverts_parse(s: Seq<char>)
    requires
        0 < s.len() <= 64,
        all_digits(s),
        s[0] == '1',
    ensures
        parse_spec(s) == Ok::<Fib64, ParseFib64Error>(Fib64(pattern_of(s))),
        digits_of(pattern_of(s)) == s,
{
    let p = pattern_of(s);
    let len = s.len();
    assert forall|j: u64| j < 64 implies is_set(p, j) == (j < len && s[len - 1 - j] == '1') by {
        lemma_pattern_bits(s, j);
    }
    lemma_width(p, 64);
    assert(is_set(p, (len - 1) as u64));
    assert(width(p, 64) == len);
    lemma_digits(p);
    assert forall|i: int| 0 <= i < len implies digits_of(p)[i] == s[i] by {
        assert(is_digit(s[i]));
        assert(digits_of(p)[i] == digit_of(is_set(p, (len - 1 - i) as u64)));
    }
}

/// The zero pattern is written as the empty string.
pub proof fn theorem_zero_has_no_digits()
    ensures
        digits_of(0) == Seq::<char>::empty(),
{
    lemma_digits(0);
    lemma_width(0, 64);
    if width(0, 64) > 0 {
        lemma_zero_has_no_bits((width(0, 64) - 1) as u64);
    }
}

/// Parsing undoes writing: the digit string of every pattern but zero parses
/// to that pattern.
pub proof fn theorem_parse_inverts_format(f: Fib64)
    requires
        f.0 != 0,
    ensures
        parse_spec(digits_of(f.0)) == Ok::<Fib64, ParseFib64Error>(f),
{
    let p = f.0;
    let s = digits_of(p);
    let w = width(p, 64);
    lemma_digits(p);
    lemma_width(p, 64);
    if w == 0 {
        assert forall|j: u64| j < 64 implies is_set(p, j) == is_set(0, j) by {
            lemma_zero_has_no_bits(j);
        }
        lemma_same_bits(p, 0);
    }
    assert forall|j: u64| j < 64 implies is_set(pattern_of(s), j) == is_set(p, j) by {
        lemma_pattern_bits(s, j);
        if j < w {
            assert(s[w - 1 - j] == digit_of(is_set(p, (w - 1 - (w - 1 - j)) as u64)));
        }
    }
    lemma_same_bits(pattern_of(s), p);
}

/// Encoding undoes decoding on Zeckendorf representations: a pattern with no
/// two neighbouring bits set and bit 0 clear is the numeral of the number it
/// stands for, so no number has two such representations.
pub proof fn theorem_encode_inverts_decode(f: Fib64)
    requires
        is_canonical(f.0),
    ensures
        encode_spec(decode_spec(f)) == f,
{
    let p = f.0;
    lemma_fib_values();
    lemma_value_bound(p, 64);
    let q = greedy(value_of(p), 64);
    assert forall|j: u64| j < 64 implies is_set(q, j) == is_set(p, j) by {
        lemma_greedy_of_canonical(p, 64, j);
    }
    lemma_same_bits(q, p);
}

} // verus!
