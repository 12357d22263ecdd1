//! Rays: an origin and a direction.

use vstd::prelude::*;
use crate::vec3::{Point3, Vec3};

verus! {

/// The half-line from `orig` along `dir`.
#[derive(Clone, Copy, Debug, PartialEq, Eq, Structural)]
pub struct Ray {
    pub orig: Point3,
    pub dir: Vec3,
}

impl Ray {
    /// The ray from the origin of space with the null direction.
    pub fn zeros() -> (r: Self)
        ensures
            r == (Ray { orig: Vec3::zeros(), dir: Vec3::zeros() }),
    {
        Ray { orig: Point3::zeros(), dir: Vec3::zeros() }
    }

    pub fn new(orig: Point3, dir: Vec3) -> (r: Self)
        ensures
            r == (Ray { orig, dir }),
    {
        Ray { orig, dir }
    }

    pub fn origin(&self) -> (p: Point3)
        ensures
            p == self.orig,
    {
        self.orig
    }

    pub fn direction(&self) -> (d: Vec3)
        ensures
            d == self.dir,
    {
        self.dir
    }
}

} // verus!
