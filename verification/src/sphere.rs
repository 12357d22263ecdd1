//! Spheres, and which of a ray's two crossings of one is the hit.

use vstd::prelude::*;
use crate::scalar::Scalar;
use crate::vec3::{Point3, Vec3};
use crate::material::Material;
use crate::hittable::{face_normal, HitRecord};

verus! {

/// A sphere of one material.
#[derive(Clone, Copy, Debug, PartialEq, Eq, Structural)]
pub struct Sphere {
    center: Point3,
    radius: Scalar,
    mat: Material,
}

/// One place where a ray's line crosses a sphere, as the caller computed it.
#[derive(Clone, Copy, Debug, PartialEq, Eq, Structural)]
pub struct Crossing {
    /// The ray parameter of the crossing, a root of the quadratic.
    pub t: Scalar,
    /// The point of the ray at `t`.
    pub p: Point3,
    /// That point minus the centre, divided by the radius.
    pub outward_normal: Vec3,
    /// The dot product of the ray's direction with `outward_normal`.
    pub facing: Scalar,
}

/// The quadratic of a ray and a sphere, solved by the caller: with `oc` the
/// ray's origin minus the centre, `a` the squared length of the direction,
/// `half_b` the dot product of `oc` and the direction and `c` the squared
/// length of `oc` minus the squared radius, the discriminant is
/// `half_b * half_b - a * c`, and the roots are `-half_b` minus and plus its
/// square root, divided by `a`.
#[derive(Clone, Copy, Debug, PartialEq, Eq, Structural)]
pub struct Solved {
    pub discriminant: Scalar,
    /// The crossing at the smaller root.
    pub near: Crossing,
    /// The crossing at the larger root.
    pub far: Crossing,
}

/// Whether `t` lies in `[t_min, t_max]`: it is at least the lower end and at
/// most the upper. What is not a number lies in no interval, and an interval
/// with an end that is not a number holds nothing.
pub open spec fn admits(t_min: Scalar, t_max: Scalar, t: Scalar) -> bool {
    t_min.le(t) && t.le(t_max)
}

impl Crossing {
    /// The record of a hit at this crossing of a surface of material `mat`.
    pub open spec fn record(self, mat: Material) -> HitRecord {
        HitRecord {
            p: self.p,
            normal: face_normal(self.facing, self.outward_normal),
            mat,
            t: self.t,
            front_face: self.facing.lt(Scalar::zero()),
        }
    }
}

impl Solved {
    /// The crossing that counts as the hit within `[t_min, t_max]`: none where
    /// the discriminant is below zero; else the near one where its root lies
    /// within the interval; else the far one where its root does; else none.
    pub open spec fn choice(self, t_min: Scalar, t_max: Scalar) -> Option<Crossing> {
        if self.discriminant.lt(Scalar::zero()) {
            None
        } else if admits(t_min, t_max, self.near.t) {
            Some(self.near)
        } else if admits(t_min, t_max, self.far.t) {
            Some(self.far)
        } else {
            None
        }
    }

    /// The far root is not below the near one.
    pub open spec fn ordered(self) -> bool {
        !self.far.t.lt(self.near.t)
    }
}

impl Sphere {
    pub closed spec fn spec_center(&self) -> Point3 {
        self.center
    }

    pub closed spec fn spec_radius(&self) -> Scalar {
        self.radius
    }

    pub closed spec fn spec_material(&self) -> Material {
        self.mat
    }

    /// What `hit` returns.
    pub open spec fn spec_hit(&self, solved: Solved, t_min: Scalar, t_max: Scalar) -> Option<
        HitRecord,
    > {
        match solved.choice(t_min, t_max) {
            Some(crossing) => Some(crossing.record(self.material())),
            None => None,
        }
    }

    pub fn new(center: Point3, radius: Scalar, mat: Material) -> (s: Self)
        ensures
            s.center() == center,
            s.radius() == radius,
            s.material() == mat,
    {
        Sphere { center, radius, mat }
    }

    #[verifier::when_used_as_spec(spec_center)]
    pub fn center(&self) -> (c: Point3)
        ensures
            c == self.center(),
    {
        self.center
    }

    #[verifier::when_used_as_spec(spec_radius)]
    pub fn radius(&self) -> (r: Scalar)
        ensures
            r == self.radius(),
    {
        self.radius
    }

    #[verifier::when_used_as_spec(spec_material)]
    pub fn material(&self) -> (m: Material)
        ensures
            m == self.material(),
    {
        self.mat
    }

    /// The hit of a ray on this sphere within `[t_min, t_max]`, from the
    /// solved quadratic of the two. There is none where the discriminant is
    /// below zero or neither root lies within the interval. Otherwise the hit
    /// is at the near root where that lies within the interval and at the far
    /// root where it does not; the record holds that crossing's parameter and point, this
    /// sphere's material, and the outward normal turned against the ray. The
    /// parameter of a hit is a number within the interval: a root that is not
    /// a number, as a ray without direction has, is no hit.
    pub fn hit(&self, solved: &Solved, t_min: Scalar, t_max: Scalar) -> (res: Option<HitRecord>)
        ensures
            res == self.spec_hit(*solved, t_min, t_max),
            res matches Some(rec) ==> t_min.le(rec.t) && rec.t.le(t_max),
    {
        if solved.discriminant.lt(Scalar::zero()) {
            return None;
        }
        let mut root = solved.near;
        if !(t_min.le(root.t) && root.t.le(t_max)) {
            root = solved.far;
            if !(t_min.le(root.t) && root.t.le(t_max)) {
                return None;
            }
        }
        let mut res = HitRecord {
            t: root.t,
            p: root.p,
            normal: Vec3::zeros(),
            front_face: false,
            mat: self.mat,
        };
        res.set_face_normal(root.facing, root.outward_normal);
        Some(res)
    }
}

/// A hit lies within the interval it was asked for: its parameter is a
/// number, at least `t_min` and at most `t_max`.
pub proof fn hit_lies_within_interval(sphere: Sphere, solved: Solved, t_min: Scalar, t_max: Scalar)
    ensures
        sphere.spec_hit(solved, t_min, t_max) matches Some(rec) ==> {
            &&& !rec.t.is_nan()
            &&& t_min.le(rec.t)
            &&& rec.t.le(t_max)
        },
{
}

/// The hit is the first crossing that the interval holds: where the far root
/// is not below the near one, no root within the interval lies below the
/// parameter of the hit, and there is no hit only if the discriminant is
/// below zero or neither root lies within the interval.
pub proof fn hit_is_first_crossing(sphere: Sphere, solved: Solved, t_min: Scalar, t_max: Scalar)
    requires
        solved.ordered(),
    ensures
        match sphere.spec_hit(solved, t_min, t_max) {
            Some(rec) => {
                &&& admits(t_min, t_max, solved.near.t) ==> rec.t.le(solved.near.t)
                &&& admits(t_min, t_max, solved.far.t) ==> rec.t.le(solved.far.t)
            },
            None => solved.discriminant.lt(Scalar::zero()) || (!admits(
                t_min,
                t_max,
                solved.near.t,
            ) && !admits(t_min, t_max, solved.far.t)),
        },
{
}

/// Asking again within a shorter interval is consistent: where the far root
/// is not below the near one and `closer` is at most `t_max`, the hit within
/// `[t_min, closer]` is the hit within `[t_min, t_max]` if that lies at or
/// below `closer`, and none otherwise.
pub proof fn shorter_interval_is_consistent(
    sphere: Sphere,
    solved: Solved,
    t_min: Scalar,
    t_max: Scalar,
    closer: Scalar,
)
    requires
        closer.le(t_max),
        solved.ordered(),
    ensures
        sphere.spec_hit(solved, t_min, closer) == match sphere.spec_hit(solved, t_min, t_max) {
            Some(rec) => if rec.t.le(closer) {
                Some(rec)
            } else {
                None
            },
            None => None,
        },
{
}

} // verus!
