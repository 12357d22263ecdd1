//! Triples of doubles: points, directions and colours.

use vstd::prelude::*;
use crate::scalar::Scalar;

verus! {

/// A point in space.
pub type Point3 = Vec3;

/// A colour, one component each for red, green and blue.
pub type Color = Vec3;

/// The bits of 1e-8, the bound under which a component counts as zero.
pub const NEAR_ZERO_BITS: u64 = 0x3E45_798E_E230_8C3A;

/// Three doubles.
#[derive(Clone, Copy, Debug, PartialEq, Eq, Structural)]
pub struct Vec3 {
    pub v0: Scalar,
    pub v1: Scalar,
    pub v2: Scalar,
}

impl Vec3 {
    pub open spec fn spec_zeros() -> Vec3 {
        Vec3 { v0: Scalar::zero(), v1: Scalar::zero(), v2: Scalar::zero() }
    }

    /// Whether every component is below 1e-8 in absolute value.
    pub open spec fn spec_near_zero(&self) -> bool {
        let s = Scalar { bits: NEAR_ZERO_BITS };
        self.v0.abs().lt(s) && self.v1.abs().lt(s) && self.v2.abs().lt(s)
    }

    /// Whether every component is a zero, of either sign.
    pub open spec fn is_null(self) -> bool {
        self.v0.magnitude() == 0 && self.v1.magnitude() == 0 && self.v2.magnitude() == 0
    }

    /// The vector of the negated components.
    pub open spec fn spec_neg(self) -> Vec3 {
        Vec3 { v0: self.v0.neg(), v1: self.v1.neg(), v2: self.v2.neg() }
    }

    /// The vector whose components are all 0.
    #[verifier::when_used_as_spec(spec_zeros)]
    pub fn zeros() -> (r: Self)
        ensures
            r == Vec3::spec_zeros(),
    {
        Vec3 { v0: Scalar::zero(), v1: Scalar::zero(), v2: Scalar::zero() }
    }

    pub fn new(v0: Scalar, v1: Scalar, v2: Scalar) -> (r: Self)
        ensures
            r == (Vec3 { v0, v1, v2 }),
    {
        Vec3 { v0, v1, v2 }
    }

    pub fn x(&self) -> (r: Scalar)
        ensures
            r == self.v0,
    {
        self.v0
    }

    pub fn y(&self) -> (r: Scalar)
        ensures
            r == self.v1,
    {
        self.v1
    }

    pub fn z(&self) -> (r: Scalar)
        ensures
            r == self.v2,
    {
        self.v2
    }

    #[verifier::when_used_as_spec(spec_near_zero)]
    pub fn near_zero(&self) -> (b: bool)
        ensures
            b == self.spec_near_zero(),
    {
        let s = Scalar::from_bits(NEAR_ZERO_BITS);
        self.v0.abs().lt(s) && self.v1.abs().lt(s) && self.v2.abs().lt(s)
    }

    #[verifier::when_used_as_spec(spec_neg)]
    pub fn neg(self) -> (r: Vec3)
        ensures
            r == self.spec_neg(),
    {
        Vec3 { v0: self.v0.neg(), v1: self.v1.neg(), v2: self.v2.neg() }
    }
}

/// A vector that is not near zero has a component of at least 1e-8 in
/// absolute value, or one that is not a number: it is not the null vector.
pub proof fn far_from_zero_is_not_null(v: Vec3)
    requires
        !v.near_zero(),
    ensures
        !v.is_null(),
{
}

} // verus!
