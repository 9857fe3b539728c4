//! The arithmetic of Fibonacci-base patterns: what a pattern is worth, which
//! pattern the greedy decomposition of a number produces, and the facts that
//! relate the two.
//!
//! Bit `pos` of a pattern stands for `fib(pos + 1)`, so bits 0 and 1 both
//! stand for 1 and bit 63 stands for `fib(64)`.

use crate::bits::{is_set, lemma_set_bit, with_bit};
use crate::sequence::{fib, lemma_fib_values};
use vstd::prelude::*;

verus! {

/// What the lowest `k` bits of `pattern` are worth: the sum of `fib(pos + 1)`
/// over the set bits `pos < k`.
pub open spec fn value_below(pattern: u64, k: nat) -> nat
    decreases k,
{
    if k == 0 {
        0
    } else {
        value_below(pattern, (k - 1) as nat) + if is_set(pattern, (k - 1) as u64) {
            fib(k)
        } else {
            0
        }
    }
}

/// What `pattern` is worth: the sum of the Fibonacci numbers of its set bits.
pub open spec fn value_of(pattern: u64) -> nat {
    value_below(pattern, 64)
}

/// The pattern that the greedy decomposition of `n` over the lowest `k` bits
/// produces: going down from bit `k - 1`, a bit is taken whenever its
/// Fibonacci number still fits into what is left of `n`.
pub open spec fn greedy(n: nat, k: nat) -> u64
    decreases k,
{
    if k == 0 {
        0
    } else if fib(k) <= n {
        with_bit(greedy((n - fib(k)) as nat, (k - 1) as nat), (k - 1) as u64)
    } else {
        greedy(n, (k - 1) as nat)
    }
}

/// What is left of `n` once the greedy decomposition has gone through the
/// lowest `k` bits.
pub open spec fn greedy_rest(n: nat, k: nat) -> nat
    decreases k,
{
    if k == 0 {
        n
    } else if fib(k) <= n {
        greedy_rest((n - fib(k)) as nat, (k - 1) as nat)
    } else {
        greedy_rest(n, (k - 1) as nat)
    }
}

/// No two neighbouring bits of `pattern` are both set.
pub open spec fn no_adjacent_bits(pattern: u64) -> bool {
    forall|j: u64| j < 63 ==> !(#[trigger] is_set(pattern, j) && is_set(pattern, (j + 1) as u64))
}

/// Whether `pattern` is a Zeckendorf representation: no two neighbouring bits
/// are set, and bit 0, which stands for the same number as bit 1, is clear.
pub open spec fn is_canonical(pattern: u64) -> bool {
    no_adjacent_bits(pattern) && !is_set(pattern, 0)
}

/// The largest number that a pattern can be worth, `fib(66) - 1`.
pub const MAX_VALUE: u64 = 27777890035287;

/// The first number whose greedy pattern has two neighbouring bits, `fib(65)`.
pub const SPARSE_LIMIT: u64 = 17167680177565;

/// Every Fibonacci number from `fib(1)` on is positive.
pub proof fn lemma_fib_positive(k: nat)
    requires
        k >= 1,
    ensures
        fib(k) >= 1,
    decreases k,
{
    if k >= 3 {
        lemma_fib_positive((k - 1) as nat);
    } else {
        lemma_fib_values();
    }
}

/// No bit of the zero word is set.
pub proof fn lemma_zero_has_no_bits(j: u64)
    by (bit_vector)
    requires
        j < 64,
    ensures
        !is_set(0u64, j),
{
}

/// The lowest `k` bits are worth at most `fib(k + 2) - 1`, the sum of
/// `fib(1)` to `fib(k)`.
pub proof fn lemma_value_bound(pattern: u64, k: nat)
    ensures
        value_below(pattern, k) + 1 <= fib(k + 2),
    decreases k,
{
    if k > 0 {
        lemma_value_bound(pattern, (k - 1) as nat);
    } else {
        lemma_fib_values();
    }
}

/// Two patterns that agree on their lowest `k` bits are worth the same there.
pub proof fn lemma_value_agrees(p: u64, q: u64, k: nat)
    requires
        k <= 64,
        forall|j: u64| j < k ==> is_set(p, j) == is_set(q, j),
    ensures
        value_below(p, k) == value_below(q, k),
    decreases k,
{
    if k > 0 {
        lemma_value_agrees(p, q, (k - 1) as nat);
    }
}

/// The greedy decomposition over the lowest `k` bits sets no bit at or above
/// `k`, and none whose Fibonacci number exceeds `n`.
pub proof fn lemma_greedy_bits(n: nat, k: nat, j: u64)
    requires
        k <= 64,
        j < 64,
        is_set(greedy(n, k), j),
    ensures
        j < k,
        fib((j + 1) as nat) <= n,
    decreases k,
{
    if k == 0 {
        lemma_zero_has_no_bits(j);
    } else if fib(k) <= n {
        let rest = (n - fib(k)) as nat;
        lemma_set_bit(greedy(rest, (k - 1) as nat), (k - 1) as u64, j);
        if j != (k - 1) as u64 {
            lemma_greedy_bits(rest, (k - 1) as nat, j);
        }
    } else {
        lemma_greedy_bits(n, (k - 1) as nat, j);
    }
}

/// The greedy pattern and what the decomposition leaves over add up to `n`.
pub proof fn lemma_greedy_value(n: nat, k: nat)
    requires
        k <= 64,
    ensures
        value_below(greedy(n, k), k) + greedy_rest(n, k) == n,
    decreases k,
{
    if k == 0 {
    } else if fib(k) <= n {
        let rest = (n - fib(k)) as nat;
        let low = greedy(rest, (k - 1) as nat);
        let all = greedy(n, k);
        lemma_greedy_value(rest, (k - 1) as nat);
        assert forall|j: u64| j < (k - 1) as nat implies is_set(all, j) == is_set(low, j) by {
            lemma_set_bit(low, (k - 1) as u64, j);
        }
        lemma_value_agrees(all, low, (k - 1) as nat);
        lemma_set_bit(low, (k - 1) as u64, (k - 1) as u64);
    } else {
        lemma_greedy_value(n, (k - 1) as nat);
        let low = greedy(n, (k - 1) as nat);
        if is_set(low, (k - 1) as u64) {
            lemma_greedy_bits(n, (k - 1) as nat, (k - 1) as u64);
        }
    }
}

/// A number below `fib(k + 2)` is used up by the greedy decomposition over
/// the lowest `k` bits; a larger one leaves `n - (fib(k + 2) - 1)` over.
pub proof fn lemma_greedy_rest(n: nat, k: nat)
    ensures
        n < fib(k + 2) ==> greedy_rest(n, k) == 0,
        n >= fib(k + 2) ==> greedy_rest(n, k) == n - (fib(k + 2) - 1),
    decreases k,
{
    if k == 0 {
        assert(fib(2) == 1) by {
            lemma_fib_values();
        }
    } else if fib(k) <= n {
        lemma_greedy_rest((n - fib(k)) as nat, (k - 1) as nat);
    } else {
        lemma_greedy_rest(n, (k - 1) as nat);
        lemma_fib_positive(k);
        lemma_fib_positive((k + 1) as nat);
    }
}

/// For a number below `fib(k + 1)` the greedy pattern over the lowest `k`
/// bits has no two neighbouring bits set, and its bit 0 is clear.
pub proof fn lemma_greedy_sparse(n: nat, k: nat)
    requires
        k <= 64,
        n < fib(k + 1),
    ensures
        no_adjacent_bits(greedy(n, k)),
        !is_set(greedy(n, k), 0),
    decreases k,
{
    let all = greedy(n, k);
    if k == 0 {
        assert forall|j: u64| j < 64 implies !is_set(all, j) by {
            lemma_zero_has_no_bits(j);
        }
    } else if fib(k) <= n {
        let rest = (n - fib(k)) as nat;
        let low = greedy(rest, (k - 1) as nat);
        let top = (k - 1) as u64;
        assert(fib(1) == 1 && fib(2) == 1) by {
            lemma_fib_values();
        }
        assert(k >= 2);
        assert(rest < fib((k - 1) as nat));
        lemma_greedy_sparse(rest, (k - 1) as nat);
        assert forall|j: u64| j < 64 implies is_set(all, j) == (j == top || is_set(low, j)) by {
            lemma_set_bit(low, top, j);
        }
        assert forall|j: u64| j < 64 && is_set(low, j) implies j + 1 < top by {
            lemma_greedy_bits(rest, (k - 1) as nat, j);
            if j + 1 == top {
                assert(fib((j + 1) as nat) == fib((k - 1) as nat));
            }
        }
        assert forall|j: u64| j < 63 implies !(#[trigger] is_set(all, j) && is_set(
            all,
            (j + 1) as u64,
        )) by {
            if is_set(all, j) && is_set(all, (j + 1) as u64) {
                if j == top {
                    assert(is_set(low, (j + 1) as u64));
                } else {
                    assert(is_set(low, j));
                }
            }
        }
    } else {
        lemma_greedy_sparse(n, (k - 1) as nat);
    }
}

/// The lowest `k` bits of a Zeckendorf representation are worth less than
/// `fib(k + 1)`, the number of the next bit up.
pub proof fn lemma_canonical_value_bound(pattern: u64, k: nat)
    requires
        k <= 64,
        is_canonical(pattern),
    ensures
        value_below(pattern, k) < fib(k + 1),
    decreases k,
{
    lemma_fib_values();
    if k >= 2 {
        if is_set(pattern, (k - 1) as u64) {
            assert(!is_set(pattern, (k - 2) as u64)) by {
                assert(((k - 2) as u64 + 1) as u64 == (k - 1) as u64);
            }
            lemma_canonical_value_bound(pattern, (k - 2) as nat);
            assert(value_below(pattern, (k - 1) as nat) == value_below(pattern, (k - 2) as nat));
        } else {
            lemma_canonical_value_bound(pattern, (k - 1) as nat);
        }
    } else if k == 1 {
        assert(value_below(pattern, 0) == 0);
    }
}

/// The greedy decomposition of what the lowest `k` bits of a Zeckendorf
/// representation are worth sets exactly those of the lowest `k` bits that
/// the representation has set.
pub proof fn lemma_greedy_of_canonical(pattern: u64, k: nat, j: u64)
    requires
        k <= 64,
        j < k,
        is_canonical(pattern),
    ensures
        is_set(greedy(value_below(pattern, k), k), j) == is_set(pattern, j),
    decreases k,
{
    let worth = value_below(pattern, k);
    let below = value_below(pattern, (k - 1) as nat);
    let top = (k - 1) as u64;
    if is_set(pattern, top) {
        lemma_set_bit(greedy(below, (k - 1) as nat), top, j);
        if j < top {
            lemma_greedy_of_canonical(pattern, (k - 1) as nat, j);
        }
    } else {
        lemma_canonical_value_bound(pattern, (k - 1) as nat);
        if j < top {
            lemma_greedy_of_canonical(pattern, (k - 1) as nat, j);
        } else if is_set(greedy(below, (k - 1) as nat), j) {
            lemma_greedy_bits(below, (k - 1) as nat, j);
        }
    }
}

} // verus!
