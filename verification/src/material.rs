//! The three surface materials and what each does to a ray that strikes it.
//!
//! A scatter decision reads the hit record and a few doubles that the caller
//! has computed from the incident ray, the surface normal and, where the
//! material is random, its random draws. Each function says what those
//! doubles are.

use vstd::prelude::*;
use crate::scalar::Scalar;
use crate::vec3::{Color, Vec3};
use crate::ray::Ray;
use crate::hittable::HitRecord;

verus! {

/// A diffuse surface.
#[derive(Clone, Copy, Debug, PartialEq, Eq, Structural)]
pub struct Lambertian {
    albedo: Color,
}

/// A mirror, blurred by `fuzz`, which lies in `[0, 1]`.
#[derive(Clone, Copy, Debug, PartialEq, Eq, Structural)]
pub struct Metal {
    albedo: Color,
    fuzz: Scalar,
}

/// A clear medium with index of refraction `ir`.
#[derive(Clone, Copy, Debug, PartialEq, Eq, Structural)]
pub struct Dielectric {
    ir: Scalar,
}

/// The material of a surface.
#[derive(Clone, Copy, Debug, PartialEq, Eq, Structural)]
pub enum Material {
    Lambertian(Lambertian),
    Metal(Metal),
    Dielectric(Dielectric),
}

/// What the caller has computed of a ray that meets a dielectric.
#[derive(Clone, Copy, Debug, PartialEq, Eq, Structural)]
pub struct Refraction {
    /// The refraction ratio times the sine of the angle of incidence.
    pub scaled_sine: Scalar,
    /// Schlick's approximation of the reflectance at this angle.
    pub reflectance: Scalar,
    /// A uniform draw from [0, 1).
    pub draw: Scalar,
    /// The unit incident direction mirrored about the normal.
    pub reflected: Vec3,
    /// The unit incident direction bent by Snell's law.
    pub refracted: Vec3,
}

impl Lambertian {
    pub closed spec fn spec_albedo(&self) -> Color {
        self.albedo
    }

    /// The direction a diffuse surface scatters into: `candidate`, or the
    /// normal where `candidate` is near zero.
    pub open spec fn direction(normal: Vec3, candidate: Vec3) -> Vec3 {
        if candidate.near_zero() {
            normal
        } else {
            candidate
        }
    }

    pub fn new(albedo: Color) -> (m: Self)
        ensures
            m.albedo() == albedo,
    {
        Lambertian { albedo }
    }

    #[verifier::when_used_as_spec(spec_albedo)]
    pub fn albedo(&self) -> (c: Color)
        ensures
            c == self.albedo(),
    {
        self.albedo
    }

    /// Scatters off the point of `rec`. `candidate` is the surface normal plus
    /// a random unit vector. The ray always scatters, tinted by the albedo,
    /// along `candidate`; where the random vector cancelled the normal, along
    /// the normal. The scattered direction is the null vector only if the
    /// normal is.
    pub fn scatter(&self, rec: &HitRecord, candidate: Vec3) -> (res: Option<(Color, Ray)>)
        ensures
            res == Some(
                (
                    self.albedo(),
                    Ray { orig: rec.p, dir: Lambertian::direction(rec.normal, candidate) },
                ),
            ),
            !rec.normal.is_null() ==> !Lambertian::direction(rec.normal, candidate).is_null(),
    {
        let mut scatter_direction = candidate;
        if scatter_direction.near_zero() {
            scatter_direction = rec.normal;
        }
        Some((self.albedo, Ray::new(rec.p, scatter_direction)))
    }
}

impl Metal {
    #[verifier::type_invariant]
    spec fn bounded(self) -> bool {
        Scalar::zero().le(self.fuzz) && self.fuzz.le(Scalar::one())
    }

    pub closed spec fn spec_albedo(&self) -> Color {
        self.albedo
    }

    pub closed spec fn spec_fuzz(&self) -> Scalar {
        self.fuzz
    }

    /// The fuzz a metal is made with: 0 where `fuzz` is below 0, `fuzz`
    /// where it is below 1, else 1.
    pub open spec fn clamped(fuzz: Scalar) -> Scalar {
        if fuzz.lt(Scalar::zero()) {
            Scalar::zero()
        } else if fuzz.lt(Scalar::one()) {
            fuzz
        } else {
            Scalar::one()
        }
    }

    pub fn new(albedo: Color, fuzz: Scalar) -> (m: Self)
        ensures
            m.albedo() == albedo,
            m.fuzz() == Metal::clamped(fuzz),
    {
        Metal {
            albedo,
            fuzz: if fuzz.lt(Scalar::zero()) {
                Scalar::zero()
            } else if fuzz.lt(Scalar::one()) {
                fuzz
            } else {
                Scalar::one()
            },
        }
    }

    #[verifier::when_used_as_spec(spec_albedo)]
    pub fn albedo(&self) -> (c: Color)
        ensures
            c == self.albedo(),
    {
        self.albedo
    }

    /// The fuzz, which is a number from 0 to 1.
    #[verifier::when_used_as_spec(spec_fuzz)]
    pub fn fuzz(&self) -> (f: Scalar)
        ensures
            f == self.fuzz(),
            Scalar::zero().le(f),
            f.le(Scalar::one()),
    {
        proof {
            use_type_invariant(self);
        }
        self.fuzz
    }

    /// Reflects off the point of `rec`. `perturbed` is the unit incident
    /// direction mirrored about the surface normal, plus `fuzz` times a
    /// random point of the unit ball, and `facing` is the dot product of
    /// `perturbed` with the normal. The ray scatters along `perturbed`, tinted
    /// by the albedo, exactly when `facing` is above zero: when the
    /// reflection still leaves the surface. Else it is absorbed.
    pub fn scatter(&self, rec: &HitRecord, facing: Scalar, perturbed: Vec3) -> (res: Option<
        (Color, Ray),
    >)
        ensures
            res == if facing.gt(Scalar::zero()) {
                Some((self.albedo(), Ray { orig: rec.p, dir: perturbed }))
            } else {
                None
            },
            facing.le(Scalar::zero()) ==> res is None,
    {
        if facing.gt(Scalar::zero()) {
            Some((self.albedo, Ray::new(rec.p, perturbed)))
        } else {
            None
        }
    }
}

impl Dielectric {
    pub closed spec fn spec_ir(&self) -> Scalar {
        self.ir
    }

    /// Whether a ray with these numbers is mirrored: total internal
    /// reflection, or a draw below the reflectance.
    pub open spec fn reflects(bend: Refraction) -> bool {
        bend.scaled_sine.gt(Scalar::one()) || bend.reflectance.gt(bend.draw)
    }

    pub fn new(ir: Scalar) -> (m: Self)
        ensures
            m.ir() == ir,
    {
        Dielectric { ir }
    }

    #[verifier::when_used_as_spec(spec_ir)]
    pub fn ir(&self) -> (i: Scalar)
        ensures
            i == self.ir(),
    {
        self.ir
    }

    /// The ratio of the refraction indices that a ray crosses: `reciprocal`,
    /// the caller's `1 / ir`, where it enters through the front face, and `ir`
    /// where it leaves from inside.
    pub fn refraction_ratio(&self, front_face: bool, reciprocal: Scalar) -> (ratio: Scalar)
        ensures
            ratio == if front_face {
                reciprocal
            } else {
                self.ir()
            },
    {
        if front_face {
            reciprocal
        } else {
            self.ir
        }
    }

    /// Passes the point of `rec`. The ray always scatters, untinted: mirrored
    /// where it cannot refract (`scaled_sine` above 1) or where the
    /// reflectance is above the draw, bent otherwise.
    pub fn scatter(&self, rec: &HitRecord, bend: &Refraction) -> (res: Option<(Color, Ray)>)
        ensures
            res == Some(
                (
                    Vec3 { v0: Scalar::one(), v1: Scalar::one(), v2: Scalar::one() },
                    Ray {
                        orig: rec.p,
                        dir: if Dielectric::reflects(*bend) {
                            bend.reflected
                        } else {
                            bend.refracted
                        },
                    },
                ),
            ),
    {
        let cannot_refract = bend.scaled_sine.gt(Scalar::one());
        let direction = if cannot_refract || bend.reflectance.gt(bend.draw) {
            bend.reflected
        } else {
            bend.refracted
        };
        Some((Color::new(Scalar::one(), Scalar::one(), Scalar::one()), Ray::new(rec.p, direction)))
    }
}

} // verus!
