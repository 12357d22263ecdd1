//! Doubles by their bit patterns, and the order IEEE-754 gives them.

use vstd::prelude::*;

verus! {

/// The sign bit of a double.
pub const SIGN_BIT: u64 = 0x8000_0000_0000_0000;

/// The bits of positive infinity. A pattern whose magnitude is larger is not
/// a number.
pub const INFINITY_BITS: u64 = 0x7FF0_0000_0000_0000;

/// The bits of 1.
pub const ONE_BITS: u64 = 0x3FF0_0000_0000_0000;

/// An IEEE-754 binary64 value, held as its 64 bits.
///
/// The derived `==` compares the bits. The numeric comparisons are the
/// methods [`Scalar::lt`], [`Scalar::gt`] and [`Scalar::le`]: they treat the
/// two zeros as equal and are false whenever an operand is not a number.
#[derive(Clone, Copy, Debug, PartialEq, Eq, Structural)]
pub struct Scalar {
    pub bits: u64,
}

impl Scalar {
    /// The bits without the sign.
    pub open spec fn magnitude(self) -> int {
        if self.bits < SIGN_BIT {
            self.bits as int
        } else {
            self.bits - SIGN_BIT
        }
    }

    /// Whether the bits encode no number.
    pub open spec fn spec_is_nan(self) -> bool {
        self.magnitude() > INFINITY_BITS
    }

    /// The integer that orders as the double does: the magnitude, negated
    /// where the sign bit is set. Both zeros have key 0, and for two doubles
    /// that are numbers the smaller has the smaller key.
    pub open spec fn key(self) -> int {
        if self.bits < SIGN_BIT {
            self.bits as int
        } else {
            -(self.bits - SIGN_BIT)
        }
    }

    /// `self < other` on doubles.
    pub open spec fn spec_lt(self, other: Scalar) -> bool {
        !self.spec_is_nan() && !other.spec_is_nan() && self.key() < other.key()
    }

    /// `self > other` on doubles.
    pub open spec fn spec_gt(self, other: Scalar) -> bool {
        other.spec_lt(self)
    }

    /// `self <= other` on doubles.
    pub open spec fn spec_le(self, other: Scalar) -> bool {
        !self.spec_is_nan() && !other.spec_is_nan() && self.key() <= other.key()
    }

    /// `-self` on doubles: the same bits with the sign flipped.
    pub open spec fn spec_neg(self) -> Scalar {
        Scalar {
            bits: if self.bits < SIGN_BIT {
                (self.bits + SIGN_BIT) as u64
            } else {
                (self.bits - SIGN_BIT) as u64
            },
        }
    }

    /// `|self|` on doubles: the same bits with the sign cleared.
    pub open spec fn spec_abs(self) -> Scalar {
        Scalar { bits: self.magnitude() as u64 }
    }

    pub open spec fn spec_zero() -> Scalar {
        Scalar { bits: 0 }
    }

    pub open spec fn spec_one() -> Scalar {
        Scalar { bits: ONE_BITS }
    }

    pub open spec fn spec_infinity() -> Scalar {
        Scalar { bits: INFINITY_BITS }
    }

    /// The double with these bits.
    pub fn from_bits(bits: u64) -> (s: Scalar)
        ensures
            s.bits == bits,
    {
        Scalar { bits }
    }

    /// The bits of this double.
    pub fn to_bits(self) -> (bits: u64)
        ensures
            bits == self.bits,
    {
        self.bits
    }

    /// 0.
    #[verifier::when_used_as_spec(spec_zero)]
    pub fn zero() -> (s: Scalar)
        ensures
            s == Scalar::spec_zero(),
    {
        Scalar { bits: 0 }
    }

    /// 1.
    #[verifier::when_used_as_spec(spec_one)]
    pub fn one() -> (s: Scalar)
        ensures
            s == Scalar::spec_one(),
    {
        Scalar { bits: ONE_BITS }
    }

    /// Positive infinity.
    #[verifier::when_used_as_spec(spec_infinity)]
    pub fn infinity() -> (s: Scalar)
        ensures
            s == Scalar::spec_infinity(),
    {
        Scalar { bits: INFINITY_BITS }
    }

    #[verifier::when_used_as_spec(spec_is_nan)]
    pub fn is_nan(self) -> (b: bool)
        ensures
            b == self.spec_is_nan(),
    {
        if self.bits < SIGN_BIT {
            self.bits > INFINITY_BITS
        } else {
            self.bits - SIGN_BIT > INFINITY_BITS
        }
    }

    /// The key as a machine integer.
    fn ordinal(self) -> (k: i64)
        ensures
            k == self.key(),
    {
        if self.bits < SIGN_BIT {
            self.bits as i64
        } else {
            let m: u64 = self.bits - SIGN_BIT;
            -(m as i64)
        }
    }

    #[verifier::when_used_as_spec(spec_lt)]
    pub fn lt(self, other: Scalar) -> (b: bool)
        ensures
            b == self.spec_lt(other),
    {
        !self.is_nan() && !other.is_nan() && self.ordinal() < other.ordinal()
    }

    #[verifier::when_used_as_spec(spec_gt)]
    pub fn gt(self, other: Scalar) -> (b: bool)
        ensures
            b == self.spec_gt(other),
    {
        other.lt(self)
    }

    #[verifier::when_used_as_spec(spec_le)]
    pub fn le(self, other: Scalar) -> (b: bool)
        ensures
            b == self.spec_le(other),
    {
        !self.is_nan() && !other.is_nan() && self.ordinal() <= other.ordinal()
    }

    #[verifier::when_used_as_spec(spec_neg)]
    pub fn neg(self) -> (s: Scalar)
        ensures
            s == self.spec_neg(),
    {
        if self.bits < SIGN_BIT {
            Scalar { bits: self.bits + SIGN_BIT }
        } else {
            Scalar { bits: self.bits - SIGN_BIT }
        }
    }

    #[verifier::when_used_as_spec(spec_abs)]
    pub fn abs(self) -> (s: Scalar)
        ensures
            s == self.spec_abs(),
    {
        if self.bits < SIGN_BIT {
            self
        } else {
            Scalar { bits: self.bits - SIGN_BIT }
        }
    }
}

/// Negation mirrors the order: it negates the key and keeps what is not a
/// number so, and negating twice gives the bits back.
pub proof fn neg_mirrors_order(a: Scalar)
    ensures
        a.neg().key() == -a.key(),
        a.neg().is_nan() == a.is_nan(),
        a.neg().neg() == a,
{
}

/// The absolute value is never below zero, and is the value itself or its
/// negation.
pub proof fn abs_is_magnitude(a: Scalar)
    ensures
        a.abs().key() >= 0,
        a.abs().key() == a.key() || a.abs().key() == -a.key(),
        a.abs().is_nan() == a.is_nan(),
{
}

/// Of two doubles that are numbers exactly one of `a < b`, `b < a` and equal
/// keys holds, and `a <= b` is `a < b` or equal keys.
pub proof fn order_is_total(a: Scalar, b: Scalar)
    requires
        !a.is_nan(),
        !b.is_nan(),
    ensures
        a.lt(b) || b.lt(a) || a.key() == b.key(),
        !(a.lt(b) && b.lt(a)),
        a.le(b) <==> !b.lt(a),
        a.le(b) <==> a.lt(b) || a.key() == b.key(),
{
}

} // verus!
