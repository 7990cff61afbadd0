//! Real numbers as the verifier sees them.
//!
//! Every number that the surrogate models work on is an IEEE-754 binary64
//! value. The arithmetic on such values is done elsewhere; this crate carries
//! each value by its 64-bit pattern and reasons about what a pattern says of
//! the value: whether it is a number at all, its sign, and how two values
//! compare.
use vstd::prelude::*;

verus! {

/// Pattern of the sign bit.
pub const SIGN_BIT: u64 = 0x8000_0000_0000_0000;

/// Pattern of positive infinity: every exponent bit set, no fraction bit.
pub const INFINITY_BITS: u64 = 0x7ff0_0000_0000_0000;

/// Pattern of the value one.
pub const ONE_BITS: u64 = 0x3ff0_0000_0000_0000;

/// A binary64 value, held by its bit pattern.
#[derive(Clone, Copy, Debug, PartialEq, Eq, Structural)]
pub struct Scalar {
    pub bits: u64,
}

impl Scalar {
    /// The value with the given bit pattern.
    pub open spec fn pattern(bits: u64) -> Scalar {
        Scalar { bits }
    }

    /// Positive zero.
    pub open spec fn origin() -> Scalar {
        Scalar { bits: 0 }
    }

    /// The pattern with the sign bit cleared.
    pub open spec fn magnitude(self) -> int {
        if self.bits >= SIGN_BIT {
            self.bits - SIGN_BIT
        } else {
            self.bits as int
        }
    }

    /// The sign bit is set.
    pub open spec fn sign(self) -> bool {
        self.bits >= SIGN_BIT
    }

    /// The pattern is not a number.
    pub open spec fn is_nan(self) -> bool {
        self.magnitude() > INFINITY_BITS
    }

    /// The pattern is a number other than the two infinities.
    pub open spec fn is_finite(self) -> bool {
        self.magnitude() < INFINITY_BITS
    }

    /// The value is zero, of either sign.
    pub open spec fn is_zero(self) -> bool {
        self.magnitude() == 0
    }

    /// An integer that orders the numbers as their values are ordered: the
    /// magnitude for a cleared sign bit, its negation for a set one. The two
    /// zeros share the key 0.
    pub open spec fn order_key(self) -> int {
        if self.sign() {
            -self.magnitude()
        } else {
            self.magnitude()
        }
    }

    /// `self < other` as values. False as soon as one side is not a number.
    pub open spec fn spec_lt(self, other: Scalar) -> bool {
        !self.is_nan() && !other.is_nan() && self.order_key() < other.order_key()
    }

    /// `self <= other` as values. False as soon as one side is not a number.
    pub open spec fn spec_le(self, other: Scalar) -> bool {
        !self.is_nan() && !other.is_nan() && self.order_key() <= other.order_key()
    }

    /// The value is below zero.
    pub open spec fn is_negative(self) -> bool {
        self.spec_lt(Scalar::origin())
    }

    /// What clamping at zero yields: zero for a value below zero, the value
    /// itself otherwise (a pattern that is not a number stays as it is).
    pub open spec fn spec_clamp_negative(self) -> Scalar {
        if self.is_negative() {
            Scalar::origin()
        } else {
            self
        }
    }

    /// The value with its sign changed: the same pattern but for the sign
    /// bit.
    pub open spec fn spec_neg(self) -> Scalar {
        if self.bits >= SIGN_BIT {
            Scalar { bits: (self.bits - SIGN_BIT) as u64 }
        } else {
            Scalar { bits: (self.bits + SIGN_BIT) as u64 }
        }
    }

    /// The value with the given bit pattern.
    pub fn from_bits(bits: u64) -> (r: Scalar)
        ensures
            r == Scalar::pattern(bits),
    {
        Scalar { bits }
    }

    /// The bit pattern of the value.
    pub fn to_bits(&self) -> (bits: u64)
        ensures
            bits == self.bits,
    {
        self.bits
    }

    /// Positive zero.
    pub fn zero() -> (r: Scalar)
        ensures
            r.bits == 0,
    {
        Scalar { bits: 0 }
    }

    /// The value one.
    pub fn one() -> (r: Scalar)
        ensures
            r.bits == ONE_BITS,
    {
        Scalar { bits: ONE_BITS }
    }

    /// The pattern with the sign bit cleared.
    fn exec_magnitude(&self) -> (m: u64)
        ensures
            m == self.magnitude(),
    {
        if self.bits >= SIGN_BIT {
            self.bits - SIGN_BIT
        } else {
            self.bits
        }
    }

    /// Tells whether the pattern is not a number.
    pub fn nan(&self) -> (r: bool)
        ensures
            r == self.is_nan(),
    {
        self.exec_magnitude() > INFINITY_BITS
    }

    /// Tells whether the value is a number other than the two infinities.
    pub fn finite(&self) -> (r: bool)
        ensures
            r == self.is_finite(),
    {
        self.exec_magnitude() < INFINITY_BITS
    }

    /// Tells whether the value is zero, of either sign.
    pub fn zero_valued(&self) -> (r: bool)
        ensures
            r == self.is_zero(),
    {
        self.exec_magnitude() == 0
    }

    /// Tells whether `self < other` as values.
    pub fn lt(&self, other: &Scalar) -> (r: bool)
        ensures
            r == self.spec_lt(*other),
    {
        if self.nan() || other.nan() {
            return false;
        }
        let a: u64 = self.exec_magnitude();
        let b: u64 = other.exec_magnitude();
        if self.bits >= SIGN_BIT {
            if other.bits >= SIGN_BIT {
                b < a
            } else {
                a != 0 || b != 0
            }
        } else {
            if other.bits >= SIGN_BIT {
                false
            } else {
                a < b
            }
        }
    }

    /// Tells whether `self <= other` as values.
    pub fn le(&self, other: &Scalar) -> (r: bool)
        ensures
            r == self.spec_le(*other),
    {
        if self.nan() || other.nan() {
            return false;
        }
        let a: u64 = self.exec_magnitude();
        let b: u64 = other.exec_magnitude();
        if self.bits >= SIGN_BIT {
            if other.bits >= SIGN_BIT {
                b <= a
            } else {
                true
            }
        } else {
            if other.bits >= SIGN_BIT {
                a == 0 && b == 0
            } else {
                a <= b
            }
        }
    }

    /// The value with its sign changed.
    pub fn neg(&self) -> (r: Scalar)
        ensures
            r == self.spec_neg(),
            r.magnitude() == self.magnitude(),
            r.sign() != self.sign(),
    {
        if self.bits >= SIGN_BIT {
            Scalar { bits: self.bits - SIGN_BIT }
        } else {
            Scalar { bits: self.bits + SIGN_BIT }
        }
    }

    /// Tells whether the value is below zero.
    pub fn negative(&self) -> (r: bool)
        ensures
            r == self.is_negative(),
    {
        self.lt(&Scalar { bits: 0 })
    }

    /// Replaces a value below zero by zero and keeps every other pattern.
    pub fn clamp_negative(&self) -> (r: Scalar)
        ensures
            r == self.spec_clamp_negative(),
            !r.is_negative(),
            !self.is_nan() ==> Scalar::origin().spec_le(r),
    {
        if self.negative() {
            Scalar { bits: 0 }
        } else {
            *self
        }
    }
}

/// Changing the sign twice gives the value back, and changing the sign of
/// both sides turns an order around.
pub proof fn lemma_neg(a: Scalar, b: Scalar)
    ensures
        a.spec_neg().spec_neg() == a,
        a.spec_lt(b) <==> b.spec_neg().spec_lt(a.spec_neg()),
        a.spec_le(b) <==> b.spec_neg().spec_le(a.spec_neg()),
{
}

/// Clamping at zero leaves nothing below zero, and clamping twice is
/// clamping once.
pub proof fn lemma_clamp_negative(a: Scalar)
    ensures
        !a.spec_clamp_negative().is_negative(),
        a.spec_clamp_negative().spec_clamp_negative() == a.spec_clamp_negative(),
        !a.is_nan() ==> Scalar::origin().spec_le(a.spec_clamp_negative()),
{
}

} // verus!
