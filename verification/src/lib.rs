//! Conversion between unsigned integers and their Zeckendorf (Fibonacci-base)
//! representation, with the bit-vector operations the codec is built on.

pub mod bits;
pub mod convert;
pub mod fib_u64;
pub mod sequence;
pub mod theorems;
pub mod zeckendorf;
