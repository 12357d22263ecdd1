//! The decision core of a Monte-Carlo path tracer for scenes of spheres.
//!
//! Every number of the scene is an IEEE-754 double. This crate carries each
//! double by its bit pattern and owns everything the renderer decides with
//! them: which root of a sphere's quadratic is the hit, which way a surface
//! normal faces, which object of a scene is struck first, whether a material
//! scatters or absorbs and in which direction, when a light path ends, which
//! pixel of the image a work unit writes and where its rows land in the final
//! picture. The arithmetic on doubles (sums, products, roots) is done by the
//! caller, who hands the results in. So are the random draws: the renderer
//! hands one random source from call to call and never looks into it, so
//! that a picture is a function of the source it starts with.

pub mod scalar;
pub mod vec3;
pub mod ray;
pub mod material;
pub mod hittable;
pub mod sphere;
pub mod hittable_list;
pub mod integrator;
pub mod render;
pub mod canvas;
