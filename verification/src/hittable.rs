//! The record of where a ray meets a surface.

use vstd::prelude::*;
use crate::scalar::Scalar;
use crate::vec3::{Point3, Vec3};
use crate::material::Material;

verus! {

/// Where and how a ray met a surface.
#[derive(Clone, Copy, Debug, PartialEq, Eq, Structural)]
pub struct HitRecord {
    /// The point of the hit.
    pub p: Point3,
    /// The surface normal there, turned against the ray.
    pub normal: Vec3,
    /// The material of the surface.
    pub mat: Material,
    /// The ray parameter of the hit.
    pub t: Scalar,
    /// Whether the ray came from outside the surface.
    pub front_face: bool,
}

/// The normal that a record stores for a ray whose direction has the dot
/// product `facing` with `outward_normal`: the outward normal where the ray
/// comes from outside, its negation elsewhere.
pub open spec fn face_normal(facing: Scalar, outward_normal: Vec3) -> Vec3 {
    if facing.lt(Scalar::zero()) {
        outward_normal
    } else {
        outward_normal.neg()
    }
}

impl HitRecord {
    /// Turns the normal against the ray. `facing` is the dot product of the
    /// ray's direction with `outward_normal`. The ray is on the front face
    /// exactly when `facing` is below zero, and the stored normal is the
    /// outward normal then, its negation otherwise. Nothing else changes.
    pub fn set_face_normal(&mut self, facing: Scalar, outward_normal: Vec3)
        ensures
            final(self).front_face == facing.lt(Scalar::zero()),
            final(self).normal == face_normal(facing, outward_normal),
            final(self).p == old(self).p,
            final(self).mat == old(self).mat,
            final(self).t == old(self).t,
    {
        self.front_face = facing.lt(Scalar::zero());
        self.normal = if self.front_face {
            outward_normal
        } else {
            outward_normal.neg()
        };
    }
}

/// `facing`, negated where the normal was flipped, is never above zero.
pub proof fn flipped_facing_is_not_positive(facing: Scalar)
    requires
        !facing.is_nan(),
    ensures
        facing.lt(Scalar::zero()) ==> facing.le(Scalar::zero()),
        !facing.lt(Scalar::zero()) ==> facing.neg().le(Scalar::zero()),
{
}

} // verus!
