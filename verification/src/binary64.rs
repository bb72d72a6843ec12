//! Binary64 values held as bit patterns, with the order that `min` and `max` go by.

use vstd::prelude::*;

verus! {

/// The bit that carries the sign of a binary64 value.
pub const SIGN_BIT: u64 = 0x8000_0000_0000_0000;

/// The bit pattern of positive infinity; every larger magnitude is a NaN.
pub const INFINITY_BITS: u64 = 0x7FF0_0000_0000_0000;

/// An IEEE 754 binary64 value, held as its 64 bits.
#[derive(Clone, Copy, Debug, PartialEq, Eq, Structural)]
pub struct Binary64 {
    pub bits: u64,
}

impl Binary64 {
    /// The bits without the sign bit.
    pub open spec fn magnitude(self) -> int {
        if self.bits >= SIGN_BIT {
            self.bits - SIGN_BIT
        } else {
            self.bits as int
        }
    }

    pub open spec fn is_negative(self) -> bool {
        self.bits >= SIGN_BIT
    }

    /// Whether the bits encode no number at all.
    pub open spec fn spec_is_nan(self) -> bool {
        self.magnitude() > INFINITY_BITS
    }

    /// The place of a number in the order of all binary64 numbers. Where two numbers
    /// differ in value the smaller has the smaller rank; negative zero ranks directly
    /// below positive zero. The rank of a NaN has no meaning.
    pub open spec fn rank(self) -> int {
        if self.is_negative() {
            -self.magnitude() - 1
        } else {
            self.magnitude()
        }
    }

    /// The smaller of two values, where a NaN gives way to the other value.
    pub open spec fn min_of(self, other: Binary64) -> Binary64 {
        if other.is_nan() {
            self
        } else if self.is_nan() {
            other
        } else if other.rank() < self.rank() {
            other
        } else {
            self
        }
    }

    /// The larger of two values, where a NaN gives way to the other value.
    pub open spec fn max_of(self, other: Binary64) -> Binary64 {
        if other.is_nan() {
            self
        } else if self.is_nan() {
            other
        } else if other.rank() > self.rank() {
            other
        } else {
            self
        }
    }

    pub fn from_bits(bits: u64) -> (value: Binary64)
        ensures
            value.bits == bits,
    {
        Binary64 { bits }
    }

    pub fn to_bits(self) -> (bits: u64)
        ensures
            bits == self.bits,
    {
        self.bits
    }

    /// Whether the bits encode no number at all.
    #[verifier::when_used_as_spec(spec_is_nan)]
    pub fn is_nan(self) -> (answer: bool)
        ensures
            answer == self.spec_is_nan(),
    {
        if self.bits >= SIGN_BIT {
            self.bits - SIGN_BIT > INFINITY_BITS
        } else {
            self.bits > INFINITY_BITS
        }
    }

    /// Whether `self` ranks strictly below `other`.
    pub fn ranks_below(self, other: Binary64) -> (answer: bool)
        ensures
            answer == (self.rank() < other.rank()),
    {
        if self.bits >= SIGN_BIT {
            if other.bits >= SIGN_BIT {
                self.bits > other.bits
            } else {
                true
            }
        } else {
            if other.bits >= SIGN_BIT {
                false
            } else {
                self.bits < other.bits
            }
        }
    }

    pub fn min(self, other: Binary64) -> (least: Binary64)
        ensures
            least == self.min_of(other),
    {
        if other.is_nan() {
            self
        } else if self.is_nan() {
            other
        } else if other.ranks_below(self) {
            other
        } else {
            self
        }
    }

    pub fn max(self, other: Binary64) -> (greatest: Binary64)
        ensures
            greatest == self.max_of(other),
    {
        if other.is_nan() {
            self
        } else if self.is_nan() {
            other
        } else if self.ranks_below(other) {
            other
        } else {
            self
        }
    }
}

} // verus!
