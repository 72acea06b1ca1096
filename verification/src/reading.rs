//! Double-precision readings, held by their IEEE-754 bit pattern.
//!
//! A reading is never computed with here: it is carried, tested for equality
//! and put in order. Both follow IEEE-754: a NaN equals nothing and is in no
//! order with anything, and the two zeros are equal.

use std::cmp::Ordering;
use vstd::prelude::*;
use vstd::std_specs::cmp::PartialEqSpecImpl;
use vstd::std_specs::cmp::PartialOrdSpecImpl;

verus! {

/// The sign bit of a 64-bit pattern.
pub const SIGN_BIT: u64 = 0x8000_0000_0000_0000;

/// The pattern of positive infinity: every larger magnitude is a NaN.
pub const INFINITY_BITS: u64 = 0x7ff0_0000_0000_0000;

/// One double-precision number, as the 64 bits that encode it.
#[derive(Clone, Copy, Debug)]
pub struct Reading {
    pub bits: u64,
}

impl Reading {
    /// The bits below the sign bit: exponent and fraction.
    pub open spec fn magnitude(self) -> int {
        if self.bits >= SIGN_BIT {
            self.bits - SIGN_BIT
        } else {
            self.bits as int
        }
    }

    /// The sign bit is set.
    pub open spec fn negative(self) -> bool {
        self.bits >= SIGN_BIT
    }

    /// The pattern encodes no number.
    pub open spec fn nan(self) -> bool {
        self.magnitude() > INFINITY_BITS
    }

    /// An integer that orders the numbers as their values do: the magnitude,
    /// negated under a set sign bit. The two zeros share the rank 0.
    pub open spec fn rank(self) -> int {
        if self.negative() {
            -self.magnitude()
        } else {
            self.magnitude()
        }
    }

    /// `self` and `other` are numbers of the same value.
    pub open spec fn same_value(self, other: Reading) -> bool {
        !self.nan() && !other.nan() && self.rank() == other.rank()
    }

    /// `self` is a number strictly greater than the number `other`.
    pub open spec fn exceeds(self, other: Reading) -> bool {
        !self.nan() && !other.nan() && self.rank() > other.rank()
    }

    /// The reading with the given bit pattern.
    pub fn from_bits(bits: u64) -> (r: Reading)
        ensures
            r.bits == bits,
    {
        Reading { bits }
    }

    /// The bit pattern of the reading.
    pub fn to_bits(self) -> (r: u64)
        ensures
            r == self.bits,
    {
        self.bits
    }

    /// Does the pattern encode no number?
    pub fn is_nan(self) -> (r: bool)
        ensures
            r == self.nan(),
    {
        let magnitude: u64 = if self.bits >= SIGN_BIT {
            self.bits - SIGN_BIT
        } else {
            self.bits
        };
        magnitude > INFINITY_BITS
    }

    /// The rank of the reading, computed.
    pub fn ranked(self) -> (r: i128)
        ensures
            r == self.rank(),
    {
        if self.bits >= SIGN_BIT {
            -((self.bits - SIGN_BIT) as i128)
        } else {
            self.bits as i128
        }
    }
}

impl PartialEq for Reading {
    fn eq(&self, other: &Reading) -> (r: bool) {
        !self.is_nan() && !other.is_nan() && self.ranked() == other.ranked()
    }
}

impl PartialEqSpecImpl for Reading {
    open spec fn obeys_eq_spec() -> bool {
        true
    }

    open spec fn eq_spec(&self, other: &Reading) -> bool {
        self.same_value(*other)
    }
}

impl PartialOrd for Reading {
    fn partial_cmp(&self, other: &Reading) -> (r: Option<Ordering>) {
        if self.is_nan() || other.is_nan() {
            None
        } else {
            let a = self.ranked();
            let b = other.ranked();
            if a < b {
                Some(Ordering::Less)
            } else if a > b {
                Some(Ordering::Greater)
            } else {
                Some(Ordering::Equal)
            }
        }
    }
}

impl PartialOrdSpecImpl for Reading {
    open spec fn obeys_partial_cmp_spec() -> bool {
        true
    }

    open spec fn partial_cmp_spec(&self, other: &Reading) -> Option<Ordering> {
        if self.nan() || other.nan() {
            None
        } else if self.rank() < other.rank() {
            Some(Ordering::Less)
        } else if self.rank() > other.rank() {
            Some(Ordering::Greater)
        } else {
            Some(Ordering::Equal)
        }
    }
}

} // verus!
