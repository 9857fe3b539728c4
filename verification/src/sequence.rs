//! The Fibonacci numbers the codec works with, as a table ordered from the
//! largest entry down.

use vstd::prelude::*;

verus! {

/// The Fibonacci numbers: `fib(0) = 0`, `fib(1) = 1`, and each later one the
/// sum of the two before it.
pub open spec fn fib(n: nat) -> nat
    decreases n,
{
    if n == 0 {
        0
    } else if n == 1 {
        1
    } else {
        fib((n - 1) as nat) + fib((n - 2) as nat)
    }
}

/// `SEQ[idx]` is the Fibonacci number that bit `63 - idx` of a pattern stands
/// for, namely `fib(64 - idx)`: the table runs from `fib(64)` down to
/// `fib(2) = 1` and `fib(1) = 1`.
pub const SEQ: [u64; 64] = [
    10610209857723, 6557470319842, 4052739537881, 2504730781961,
    1548008755920, 956722026041, 591286729879, 365435296162,
    225851433717, 139583862445, 86267571272, 53316291173,
    32951280099, 20365011074, 12586269025, 7778742049,
    4807526976, 2971215073, 1836311903, 1134903170,
    701408733, 433494437, 267914296, 165580141,
    102334155, 63245986, 39088169, 24157817,
    14930352, 9227465, 5702887, 3524578,
    2178309, 1346269, 832040, 514229,
    317811, 196418, 121393, 75025,
    46368, 28657, 17711, 10946,
    6765, 4181, 2584, 1597,
    987, 610, 377, 233,
    144, 89, 55, 34,
    21, 13, 8, 5,
    3, 2, 1, 1,
];

/// The value of each of the first 66 Fibonacci numbers.
pub proof fn lemma_fib_values()
    ensures
        fib(1) == 1,
        fib(2) == 1,
        fib(64) == 10610209857723,
        fib(65) == 17167680177565,
        fib(66) == 27777890035288,
        forall|idx: int| 0 <= idx < 64 ==> SEQ[idx] == #[trigger] fib((64 - idx) as nat),
{
    assert(fib(0) == 0);
    assert(fib(1) == 1);
    assert(fib(2) == 1);
    assert(fib(3) == 2);
    assert(fib(4) == 3);
    assert(fib(5) == 5);
    assert(fib(6) == 8);
    assert(fib(7) == 13);
    assert(fib(8) == 21);
    assert(fib(9) == 34);
    assert(fib(10) == 55);
    assert(fib(11) == 89);
    assert(fib(12) == 144);
    assert(fib(13) == 233);
    assert(fib(14) == 377);
    assert(fib(15) == 610);
    assert(fib(16) == 987);
    assert(fib(17) == 1597);
    assert(fib(18) == 2584);
    assert(fib(19) == 4181);
    assert(fib(20) == 6765);
    assert(fib(21) == 10946);
    assert(fib(22) == 17711);
    assert(fib(23) == 28657);
    assert(fib(24) == 46368);
    assert(fib(25) == 75025);
    assert(fib(26) == 121393);
    assert(fib(27) == 196418);
    assert(fib(28) == 317811);
    assert(fib(29) == 514229);
    assert(fib(30) == 832040);
    assert(fib(31) == 1346269);
    assert(fib(32) == 2178309);
    assert(fib(33) == 3524578);
    assert(fib(34) == 5702887);
    assert(fib(35) == 9227465);
    assert(fib(36) == 14930352);
    assert(fib(37) == 24157817);
    assert(fib(38) == 39088169);
    assert(fib(39) == 63245986);
    assert(fib(40) == 102334155);
    assert(fib(41) == 165580141);
    assert(fib(42) == 267914296);
    assert(fib(43) == 433494437);
    assert(fib(44) == 701408733);
    assert(fib(45) == 1134903170);
    assert(fib(46) == 1836311903);
    assert(fib(47) == 2971215073);
    assert(fib(48) == 4807526976);
    assert(fib(49) == 7778742049);
    assert(fib(50) == 12586269025);
    assert(fib(51) == 20365011074);
    assert(fib(52) == 32951280099);
    assert(fib(53) == 53316291173);
    assert(fib(54) == 86267571272);
    assert(fib(55) == 139583862445);
    assert(fib(56) == 225851433717);
    assert(fib(57) == 365435296162);
    assert(fib(58) == 591286729879);
    assert(fib(59) == 956722026041);
    assert(fib(60) == 1548008755920);
    assert(fib(61) == 2504730781961);
    assert(fib(62) == 4052739537881);
    assert(fib(63) == 6557470319842);
    assert(fib(64) == 10610209857723);
    assert(fib(65) == 17167680177565);
    assert(fib(66) == 27777890035288);
}

} // verus!
