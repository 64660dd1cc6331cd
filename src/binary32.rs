//! Single-precision values held as IEEE-754 binary32 bit patterns, with the
//! ordering and equality that the hardware gives them.
use vstd::prelude::*;

verus! {

/// The sign bit of a binary32 pattern.
pub const SIGN_BIT: u32 = 0x8000_0000;

/// The pattern of positive infinity; a larger magnitude field is a NaN.
pub const INFINITY_BITS: u32 = 0x7f80_0000;

/// The pattern of `+0.0`.
pub const ZERO_BITS: u32 = 0;

/// A single-precision value, stored as its bit pattern.
#[derive(Clone, Copy, Debug, PartialEq, Eq, Structural)]
pub struct Binary32 {
    pub bits: u32,
}

impl Binary32 {
    /// Whether the sign bit is set.
    pub open spec fn is_negative(self) -> bool {
        self.bits >= SIGN_BIT
    }

    /// The pattern with the sign bit cleared: exponent and fraction together.
    pub open spec fn magnitude(self) -> u32 {
        if self.is_negative() {
            (self.bits - SIGN_BIT) as u32
        } else {
            self.bits
        }
    }

    /// Not a number: every exponent bit set and a non-zero fraction.
    pub open spec fn is_nan(self) -> bool {
        self.magnitude() > INFINITY_BITS
    }

    /// Where the value lies on the number line. For non-NaN values a larger rank
    /// is a larger number, and both zeros have rank 0.
    pub open spec fn rank(self) -> int {
        if self.is_negative() {
            -(self.magnitude() as int)
        } else {
            self.magnitude() as int
        }
    }

    /// IEEE `<`: false whenever either side is NaN.
    pub open spec fn spec_lt(self, other: Binary32) -> bool {
        !self.is_nan() && !other.is_nan() && self.rank() < other.rank()
    }

    /// IEEE `==`: false whenever either side is NaN, true of `+0.0` and `-0.0`.
    pub open spec fn spec_ieee_eq(self, other: Binary32) -> bool {
        !self.is_nan() && !other.is_nan() && self.rank() == other.rank()
    }

    /// The absolute value: the same pattern with the sign bit cleared.
    pub open spec fn spec_abs(self) -> Binary32 {
        Binary32 { bits: self.magnitude() }
    }

    /// The value with the given bit pattern.
    pub fn from_bits(bits: u32) -> (r: Binary32)
        ensures
            r.bits == bits,
    {
        Binary32 { bits }
    }

    /// The bit pattern of the value.
    pub fn to_bits(&self) -> (r: u32)
        ensures
            r == self.bits,
    {
        self.bits
    }

    /// The sign bit cleared.
    pub fn magnitude_bits(&self) -> (r: u32)
        ensures
            r == self.magnitude(),
    {
        if self.bits >= SIGN_BIT {
            self.bits - SIGN_BIT
        } else {
            self.bits
        }
    }

    /// Whether the value is a NaN.
    pub fn is_nan_value(&self) -> (r: bool)
        ensures
            r == self.is_nan(),
    {
        self.magnitude_bits() > INFINITY_BITS
    }

    /// The absolute value, as `f32::abs` gives it.
    pub fn abs(&self) -> (r: Binary32)
        ensures
            r == self.spec_abs(),
    {
        Binary32 { bits: self.magnitude_bits() }
    }

    /// IEEE `self < other`.
    pub fn less_than(&self, other: &Binary32) -> (r: bool)
        ensures
            r == self.spec_lt(*other),
    {
        if self.is_nan_value() || other.is_nan_value() {
            return false;
        }
        let a = self.magnitude_bits() as i64;
        let b = other.magnitude_bits() as i64;
        let ra: i64 = if self.bits >= SIGN_BIT { -a } else { a };
        let rb: i64 = if other.bits >= SIGN_BIT { -b } else { b };
        ra < rb
    }

    /// IEEE `self == other`.
    pub fn ieee_eq(&self, other: &Binary32) -> (r: bool)
        ensures
            r == self.spec_ieee_eq(*other),
    {
        if self.is_nan_value() || other.is_nan_value() {
            return false;
        }
        let a = self.magnitude_bits() as i64;
        let b = other.magnitude_bits() as i64;
        let ra: i64 = if self.bits >= SIGN_BIT { -a } else { a };
        let rb: i64 = if other.bits >= SIGN_BIT { -b } else { b };
        ra == rb
    }
}

} // verus!
