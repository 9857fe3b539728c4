//! Bit-level operations on a 64-bit word: set a bit, clear a bit, and walk the
//! bits from the most significant one down.

use crate::fib_u64::Fib64;
use vstd::prelude::*;

verus! {

/// Whether bit `bit` (0 = least significant) of `n` is 1.
pub open spec fn is_set(n: u64, bit: u64) -> bool {
    (n >> bit) & 1 == 1
}

/// The 64 bits of `n`, most significant first: entry `i` is bit `63 - i`.
pub open spec fn bits_of(n: u64) -> Seq<bool> {
    Seq::new(64, |i: int| is_set(n, (63 - i) as u64))
}

/// `n` with bit `bit` turned on.
pub open spec fn with_bit(n: u64, bit: u64) -> u64 {
    n | (1u64 << bit)
}

/// `n` with bit `bit` turned off.
pub open spec fn without_bit(n: u64, bit: u64) -> u64 {
    n & !(1u64 << bit)
}

/// Setting bit `bit` turns that bit on and leaves every other bit alone.
pub proof fn lemma_set_bit(n: u64, bit: u64, j: u64)
    by (bit_vector)
    requires
        bit < 64,
        j < 64,
    ensures
        is_set(with_bit(n, bit), j) == (j == bit || is_set(n, j)),
{
}

/// Clearing bit `bit` turns that bit off and leaves every other bit alone.
pub proof fn lemma_unset_bit(n: u64, bit: u64, j: u64)
    by (bit_vector)
    requires
        bit < 64,
        j < 64,
    ensures
        is_set(without_bit(n, bit), j) == (j != bit && is_set(n, j)),
{
}

/// The word whose lowest `k` bits are set and whose other bits are clear.
pub open spec fn low_mask(k: u64) -> u64 {
    if k >= 64 {
        0xffff_ffff_ffff_ffffu64
    } else {
        !(0xffff_ffff_ffff_ffffu64 << k)
    }
}

/// Of no bits at all, nothing is left of a word.
proof fn lemma_low_bits_none(a: u64)
    by (bit_vector)
    ensures
        a & low_mask(0) == 0,
{
}

/// All 64 bits of a word are the word.
proof fn lemma_low_bits_all(a: u64)
    by (bit_vector)
    ensures
        a & low_mask(64) == a,
{
}

/// Two words that agree on their lowest `k` bits and on bit `k` agree on
/// their lowest `k + 1` bits.
proof fn lemma_low_bits_step(a: u64, b: u64, k: u64)
    by (bit_vector)
    requires
        k < 64,
        a & low_mask(k) == b & low_mask(k),
        is_set(a, k) == is_set(b, k),
    ensures
        a & low_mask((k + 1) as u64) == b & low_mask((k + 1) as u64),
{
}

/// Two words that agree on each of their lowest `k` bits agree on those bits
/// taken together.
proof fn lemma_low_bits_agree(a: u64, b: u64, k: u64)
    requires
        k <= 64,
        forall|j: u64| j < k ==> is_set(a, j) == is_set(b, j),
    ensures
        a & low_mask(k) == b & low_mask(k),
    decreases k,
{
    if k == 0 {
        lemma_low_bits_none(a);
        lemma_low_bits_none(b);
    } else {
        lemma_low_bits_agree(a, b, (k - 1) as u64);
        lemma_low_bits_step(a, b, (k - 1) as u64);
    }
}

/// A word is known by its bits: two words that agree on every bit are equal.
pub proof fn lemma_same_bits(a: u64, b: u64)
    requires
        forall|j: u64| j < 64 ==> is_set(a, j) == is_set(b, j),
    ensures
        a == b,
{
    lemma_low_bits_agree(a, b, 64);
    lemma_low_bits_all(a);
    lemma_low_bits_all(b);
}

/// The bit operations, for every type that holds a 64-bit word.
pub trait Fiddle: Sized {
    /// The word that the operations work on.
    spec fn word(self) -> u64;

    /// Returns the word with bit `bit` forced to 1.
    fn set(self, bit: u64) -> (r: u64)
        requires
            bit < 64,
        ensures
            r == with_bit(self.word(), bit),
    ;

    /// Returns the word with bit `bit` forced to 0.
    fn unset(self, bit: u64) -> (r: u64)
        requires
            bit < 64,
        ensures
            r == without_bit(self.word(), bit),
    ;

    /// Starts a walk over the 64 bits of the word, most significant first.
    fn bits(self) -> (b: Bits)
        ensures
            b@ == bits_of(self.word()),
    ;
}

impl Fiddle for u64 {
    open spec fn word(self) -> u64 {
        self
    }

    fn set(self, bit: u64) -> (r: u64) {
        set(self, bit)
    }

    fn unset(self, bit: u64) -> (r: u64) {
        unset(self, bit)
    }

    fn bits(self) -> (b: Bits) {
        Bits::new(self)
    }
}

impl Fiddle for Fib64 {
    open spec fn word(self) -> u64 {
        self.0
    }

    fn set(self, bit: u64) -> (r: u64) {
        set(self.0, bit)
    }

    fn unset(self, bit: u64) -> (r: u64) {
        unset(self.0, bit)
    }

    fn bits(self) -> (b: Bits) {
        Bits::new(self.0)
    }
}

/// Returns `n` with bit `bit` forced to 1. There are 64 bits, so `bit` has to
/// be below 64.
pub fn set(n: u64, bit: u64) -> (r: u64)
    requires
        bit < 64,
    ensures
        r == with_bit(n, bit),
        forall|j: u64| j < 64 ==> #[trigger] is_set(r, j) == (j == bit || is_set(n, j)),
{
    let r: u64 = n | (1u64 << bit);
    proof {
        assert forall|j: u64| j < 64 implies #[trigger] is_set(r, j) == (j == bit || is_set(
            n,
            j,
        )) by {
            lemma_set_bit(n, bit, j);
        }
    }
    r
}

/// Returns `n` with bit `bit` forced to 0. There are 64 bits, so `bit` has to
/// be below 64.
pub fn unset(n: u64, bit: u64) -> (r: u64)
    requires
        bit < 64,
    ensures
        r == without_bit(n, bit),
        forall|j: u64| j < 64 ==> #[trigger] is_set(r, j) == (j != bit && is_set(n, j)),
{
    let r: u64 = n & !(1u64 << bit);
    proof {
        assert forall|j: u64| j < 64 implies #[trigger] is_set(r, j) == (j != bit && is_set(
            n,
            j,
        )) by {
            lemma_unset_bit(n, bit, j);
        }
    }
    r
}

/// Tells whether bit `bit` of `n` is 1. There are 64 bits, so `bit` has to be
/// below 64.
pub fn check(n: u64, bit: u64) -> (r: bool)
    requires
        bit < 64,
    ensures
        r == is_set(n, bit),
{
    1 == ((n >> bit) & 1)
}

/// A walk over the bits of a word, from bit 63 down to bit 0.
pub struct Bits {
    value: u64,
    left: u64,
}

impl View for Bits {
    type V = Seq<bool>;

    /// The bits still to come, in the order in which `next` hands them out.
    closed spec fn view(&self) -> Seq<bool> {
        Seq::new(self.left as nat, |i: int| is_set(self.value, (self.left - 1 - i) as u64))
    }
}

impl Clone for Bits {
    /// A second walk that goes on from where this one stands.
    fn clone(&self) -> (b: Bits)
        ensures
            b@ == self@,
    {
        proof {
            use_type_invariant(self);
        }
        Bits { value: self.value, left: self.left }
    }
}

impl Bits {
    #[verifier::type_invariant]
    spec fn in_range(&self) -> bool {
        self.left <= 64
    }

    /// Starts a walk over all 64 bits of `value`.
    pub fn new(value: u64) -> (b: Bits)
        ensures
            b@ == bits_of(value),
    {
        Bits { value: value, left: 64 }
    }

    /// Hands out the next bit, or `None` once all 64 have been handed out.
    pub fn next(&mut self) -> (r: Option<bool>)
        ensures
            old(self)@.len() == 0 ==> r.is_none() && final(self)@ == old(self)@,
            old(self)@.len() > 0 ==> r == Some(old(self)@[0]) && final(self)@ == old(
                self,
            )@.drop_first(),
    {
        proof {
            use_type_invariant(&*self);
        }
        if self.left == 0 {
            None
        } else {
            self.left = self.left - 1;
            Some(check(self.value, self.left))
        }
    }
}

} // verus!
