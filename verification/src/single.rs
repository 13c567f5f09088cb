//! IEEE 754 binary32 values, held by their bit patterns.
//!
//! Coordinates and speeds travel through the controller and over the wire as
//! 32-bit patterns. This module says how two such patterns compare as numbers:
//! NaN compares with nothing, the two zeros are equal, and every other value
//! is ordered by sign and magnitude.

use vstd::prelude::*;
use vstd::std_specs::cmp::PartialEqSpecImpl;

verus! {

/// The first pattern of the upper half of the `u32` range: the sign bit.
pub const SIGN_BIT: u32 = 0x8000_0000;

/// The magnitude of an infinity. Larger magnitudes are NaN.
pub const INFINITY_MAGNITUDE: u32 = 0x7f80_0000;

/// A binary32 value.
#[derive(Clone, Copy, Debug)]
pub struct Single {
    pub bits: u32,
}

impl Single {
    /// The pattern without its sign bit.
    pub open spec fn magnitude(self) -> int {
        if self.bits >= SIGN_BIT {
            self.bits - SIGN_BIT
        } else {
            self.bits as int
        }
    }

    /// Whether the sign bit is set.
    pub open spec fn sign_negative(self) -> bool {
        self.bits >= SIGN_BIT
    }

    /// Whether the value is NaN: the magnitude is beyond that of infinity.
    pub open spec fn spec_is_nan(self) -> bool {
        self.magnitude() > INFINITY_MAGNITUDE
    }

    /// The place of the value on the number line, for values that are not
    /// NaN: both zeros have rank 0, and a larger value has a larger rank.
    pub open spec fn rank(self) -> int {
        if self.sign_negative() {
            -self.magnitude()
        } else {
            self.magnitude()
        }
    }

    /// Whether the value is less than `rhs`. NaN is less than nothing, and
    /// nothing is less than NaN.
    pub open spec fn spec_lt(self, rhs: Single) -> bool {
        !self.spec_is_nan() && !rhs.spec_is_nan() && self.rank() < rhs.rank()
    }

    /// Whether the value is greater than `rhs`.
    pub open spec fn spec_gt(self, rhs: Single) -> bool {
        rhs.spec_lt(self)
    }

    /// Numeric equality: neither side is NaN and both have the same rank.
    pub open spec fn same(self, rhs: Single) -> bool {
        !self.spec_is_nan() && !rhs.spec_is_nan() && self.rank() == rhs.rank()
    }

    /// Whether the value is greater than zero.
    pub open spec fn spec_is_positive(self) -> bool {
        !self.spec_is_nan() && self.rank() > 0
    }

    /// The value with the given bit pattern.
    pub fn from_bits(bits: u32) -> (r: Single)
        ensures
            r.bits == bits,
    {
        Single { bits }
    }

    /// The bit pattern of the value.
    pub fn to_bits(self) -> (r: u32)
        ensures
            r == self.bits,
    {
        self.bits
    }

    /// Positive zero.
    pub fn zero() -> (r: Single)
        ensures
            r.bits == 0,
    {
        Single { bits: 0 }
    }

    /// The rank, for values that are not NaN.
    fn exec_rank(self) -> (r: i64)
        ensures
            r == self.rank(),
    {
        if self.bits >= SIGN_BIT {
            let m: u32 = self.bits - SIGN_BIT;
            -(m as i64)
        } else {
            self.bits as i64
        }
    }

    /// Whether the value is NaN.
    #[verifier::when_used_as_spec(spec_is_nan)]
    pub fn is_nan(self) -> (r: bool)
        ensures
            r == self.spec_is_nan(),
    {
        let m: u32 = if self.bits >= SIGN_BIT {
            self.bits - SIGN_BIT
        } else {
            self.bits
        };
        m > INFINITY_MAGNITUDE
    }

    /// Whether the value is less than `rhs`.
    #[verifier::when_used_as_spec(spec_lt)]
    pub fn lt(self, rhs: Single) -> (r: bool)
        ensures
            r == self.spec_lt(rhs),
    {
        !self.is_nan() && !rhs.is_nan() && self.exec_rank() < rhs.exec_rank()
    }

    /// Whether the value is greater than `rhs`.
    #[verifier::when_used_as_spec(spec_gt)]
    pub fn gt(self, rhs: Single) -> (r: bool)
        ensures
            r == self.spec_gt(rhs),
    {
        rhs.lt(self)
    }

    /// Whether the value is greater than zero.
    #[verifier::when_used_as_spec(spec_is_positive)]
    pub fn is_positive(self) -> (r: bool)
        ensures
            r == self.spec_is_positive(),
    {
        !self.is_nan() && self.exec_rank() > 0
    }
}

impl PartialEq for Single {
    /// Numeric equality: NaN equals nothing, and the two zeros are equal.
    fn eq(&self, other: &Single) -> (r: bool) {
        !self.is_nan() && !other.is_nan() && self.exec_rank() == other.exec_rank()
    }
}

impl PartialEqSpecImpl for Single {
    open spec fn obeys_eq_spec() -> bool {
        true
    }

    open spec fn eq_spec(&self, other: &Single) -> bool {
        self.same(*other)
    }
}

} // verus!
