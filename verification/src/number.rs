//! Real numbers that the engine carries but never computes with.

use vstd::prelude::*;

verus! {

/// A double-precision number, kept as its IEEE-754 bit pattern. Two numbers are
/// equal when their bit patterns are.
#[derive(Clone, Copy, Debug, Hash, PartialEq, Eq, Structural)]
pub struct Number {
    pub bits: u64,
}

/// The bit pattern of `0.0`.
pub const ZERO_BITS: u64 = 0;

/// The bit pattern of `1.0`.
pub const ONE_BITS: u64 = 0x3ff0_0000_0000_0000;

/// The bit pattern of `100.0`.
pub const HUNDRED_BITS: u64 = 0x4059_0000_0000_0000;

impl Number {
    /// The number with the bit pattern `bits`.
    pub fn from_bits(bits: u64) -> (res: Self)
        ensures
            res.bits == bits,
    {
        Number { bits }
    }

    /// The bit pattern of the number.
    pub fn to_bits(&self) -> (res: u64)
        ensures
            res == self.bits,
    {
        self.bits
    }

    /// The number `0.0`.
    pub fn zero() -> (res: Self)
        ensures
            res.bits == ZERO_BITS,
    {
        Number { bits: ZERO_BITS }
    }

    /// The number `1.0`.
    pub fn one() -> (res: Self)
        ensures
            res.bits == ONE_BITS,
    {
        Number { bits: ONE_BITS }
    }

    /// The number `100.0`.
    pub fn hundred() -> (res: Self)
        ensures
            res.bits == HUNDRED_BITS,
    {
        Number { bits: HUNDRED_BITS }
    }
}

} // verus!
