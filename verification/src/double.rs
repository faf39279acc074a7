//! Doubles by their bit patterns.

use vstd::prelude::*;

verus! {

/// The bit pattern of positive infinity.
pub const POSITIVE_INFINITY_BITS: u64 = 0x7ff0_0000_0000_0000;

/// An IEEE 754 double, held by its 64 bits. Two are equal when their bits are.
#[derive(Clone, Copy, Debug, PartialEq, Eq, Structural)]
pub struct Double {
    pub bits: u64,
}

impl Double {
    /// The eleven exponent bits.
    pub open spec fn exponent(self) -> u64 {
        (self.bits >> 52) & 0x7ff
    }

    /// The 52 fraction bits.
    pub open spec fn fraction(self) -> u64 {
        self.bits & 0x000f_ffff_ffff_ffff
    }

    /// Whether the sign bit is set.
    pub open spec fn sign(self) -> bool {
        (self.bits >> 63) == 1
    }

    /// Neither an infinity nor a NaN.
    pub open spec fn finite(self) -> bool {
        self.exponent() != 0x7ff
    }

    /// Not a number.
    pub open spec fn nan(self) -> bool {
        self.exponent() == 0x7ff && self.fraction() != 0
    }

    /// Positive or negative zero.
    pub open spec fn zero(self) -> bool {
        self.exponent() == 0 && self.fraction() == 0
    }

    /// Below zero: the sign is set and the value is neither a zero nor a NaN.
    pub open spec fn negative(self) -> bool {
        self.sign() && !self.zero() && !self.nan()
    }

    /// Positive infinity.
    pub open spec fn infinity() -> Double {
        Double { bits: POSITIVE_INFINITY_BITS }
    }

    /// The double with the bits `bits`.
    pub fn from_bits(bits: u64) -> (r: Double)
        ensures
            r.bits == bits,
    {
        Double { bits }
    }

    /// The bits of the double.
    pub fn to_bits(&self) -> (r: u64)
        ensures
            r == self.bits,
    {
        self.bits
    }

    /// Positive infinity.
    pub fn positive_infinity() -> (r: Double)
        ensures
            r == Double::infinity(),
    {
        Double { bits: POSITIVE_INFINITY_BITS }
    }

    /// Whether the double is neither an infinity nor a NaN.
    pub fn is_finite(&self) -> (r: bool)
        ensures
            r == self.finite(),
    {
        ((self.bits >> 52) & 0x7ff) != 0x7ff
    }

    /// Whether the double is no number.
    pub fn is_nan(&self) -> (r: bool)
        ensures
            r == self.nan(),
    {
        ((self.bits >> 52) & 0x7ff) == 0x7ff && (self.bits & 0x000f_ffff_ffff_ffff) != 0
    }

    /// Whether the double is positive or negative zero.
    pub fn is_zero(&self) -> (r: bool)
        ensures
            r == self.zero(),
    {
        ((self.bits >> 52) & 0x7ff) == 0 && (self.bits & 0x000f_ffff_ffff_ffff) == 0
    }

    /// Whether the double is below zero.
    pub fn is_negative(&self) -> (r: bool)
        ensures
            r == self.negative(),
    {
        (self.bits >> 63) == 1 && !self.is_zero() && !self.is_nan()
    }
}

} // verus!
