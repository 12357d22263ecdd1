//! The light path of one ray: bounce after bounce until the ray leaves the
//! scene, is absorbed, or has no bounces left.

use vstd::prelude::*;
use crate::scalar::Scalar;
use crate::vec3::{Color, Vec3};
use crate::ray::Ray;
use crate::hittable::HitRecord;

verus! {

/// The bits of 0.001, the least ray parameter at which a hit counts. Hits
/// nearer to the origin of a scattered ray are the surface it left.
pub const SHADOW_BIAS_BITS: u64 = 0x3F50_624D_D2F1_A9FC;

/// The light at the end of a path.
#[derive(Clone, Copy, Debug, PartialEq, Eq, Structural)]
pub enum Light {
    /// None: the ray was absorbed, or ran out of bounces.
    Black,
    /// The sky, seen along the direction of the ray that left the scene.
    Sky(Vec3),
}

/// What a path carries back: the light at its end, tinted by the attenuation
/// of every bounce. The colour is the light's colour multiplied
/// component-wise by the attenuations, the last one first.
#[derive(Clone, Debug, PartialEq, Eq)]
pub struct Radiance {
    /// The attenuations of the bounces, in the order the ray made them.
    pub attenuations: Vec<Color>,
    pub light: Light,
}

/// The least parameter of a hit.
pub open spec fn spec_shadow_bias() -> Scalar {
    Scalar { bits: SHADOW_BIAS_BITS }
}

#[verifier::when_used_as_spec(spec_shadow_bias)]
pub fn shadow_bias() -> (s: Scalar)
    ensures
        s == spec_shadow_bias(),
{
    Scalar::from_bits(SHADOW_BIAS_BITS)
}

/// Whether a path of at most `depth` bounces that starts with `r` can end
/// with `light` after the bounces `attenuations`, given what `hit` and
/// `scatter` may answer, and can leave the random source `after` when it
/// starts with `source`.
///
/// With no bounce left the path is black. Otherwise the scene is asked for
/// the hit of `r` within `[0.001, infinity]`, and the path is one that the
/// answer leads to.
pub open spec fn traced<G, H, S>(
    hit: H,
    scatter: S,
    r: Ray,
    depth: nat,
    source: G,
    attenuations: Seq<Color>,
    light: Light,
    after: G,
) -> bool where
    H: Fn(Ray, Scalar, Scalar) -> Option<HitRecord>,
    S: Fn(Ray, HitRecord, G) -> (Option<(Color, Ray)>, G),

    decreases depth, 2nat,
{
    if depth == 0 {
        attenuations.len() == 0 && light == Light::Black && after == source
    } else {
        exists|found: Option<HitRecord>| #[trigger]
            hit.ensures((r, shadow_bias(), Scalar::infinity()), found) && after_hit(
                hit,
                scatter,
                r,
                depth,
                source,
                found,
                attenuations,
                light,
                after,
            )
    }
}

/// Whether the path of `r` can be this one once the scene has answered
/// `found`. Without a hit the path ends at the sky along `r`, and the random
/// source is untouched. With one the material is asked to scatter, and the
/// path is one that its answer leads to.
pub open spec fn after_hit<G, H, S>(
    hit: H,
    scatter: S,
    r: Ray,
    depth: nat,
    source: G,
    found: Option<HitRecord>,
    attenuations: Seq<Color>,
    light: Light,
    after: G,
) -> bool where
    H: Fn(Ray, Scalar, Scalar) -> Option<HitRecord>,
    S: Fn(Ray, HitRecord, G) -> (Option<(Color, Ray)>, G),

    decreases depth, 1nat,
{
    match found {
        None => attenuations.len() == 0 && light == Light::Sky(r.dir) && after == source,
        Some(rec) => exists|out: (Option<(Color, Ray)>, G)| #[trigger]
            scatter.ensures((r, rec, source), out) && after_scatter(
                hit,
                scatter,
                depth,
                out.0,
                out.1,
                attenuations,
                light,
                after,
            ),
    }
}

/// Whether a path can be this one once the material has answered `out` and
/// handed the random source back as `source`. Absorbed, the path is black.
/// Scattered, it goes on along the scattered ray with one bounce less, and
/// the attenuation stands at the front of the list.
pub open spec fn after_scatter<G, H, S>(
    hit: H,
    scatter: S,
    depth: nat,
    out: Option<(Color, Ray)>,
    source: G,
    attenuations: Seq<Color>,
    light: Light,
    after: G,
) -> bool where
    H: Fn(Ray, Scalar, Scalar) -> Option<HitRecord>,
    S: Fn(Ray, HitRecord, G) -> (Option<(Color, Ray)>, G),

    decreases depth, 0nat,
{
    match out {
        None => attenuations.len() == 0 && light == Light::Black && after == source,
        Some((attenuation, scattered)) => {
            &&& depth > 0
            &&& attenuations.len() > 0
            &&& attenuations[0] == attenuation
            &&& traced(
                hit,
                scatter,
                scattered,
                (depth - 1) as nat,
                source,
                attenuations.skip(1),
                light,
                after,
            )
        },
    }
}

/// Follows the ray `r` through the scene for at most `depth` bounces.
///
/// `hit` gives the nearest hit of a ray on the scene within an interval of
/// ray parameters. `scatter` says what the material at a hit does to the ray;
/// it draws from the random source it is handed and hands the source back.
/// The result is a path that these answers allow, with the source as the last
/// bounce left it. With `depth` 0 neither is asked, the result is black and
/// the source untouched; there are never more attenuations than `depth`.
pub fn ray_color<G, H, S>(r: Ray, hit: &H, scatter: &S, depth: u32, source: G) -> (out: (
    Radiance,
    G,
)) where
    H: Fn(Ray, Scalar, Scalar) -> Option<HitRecord>,
    S: Fn(Ray, HitRecord, G) -> (Option<(Color, Ray)>, G),

    requires
        forall|ray: Ray, t_min: Scalar, t_max: Scalar| call_requires(*hit, (ray, t_min, t_max)),
        forall|ray: Ray, rec: HitRecord, g: G| call_requires(*scatter, (ray, rec, g)),
    ensures
        traced(*hit, *scatter, r, depth as nat, source, out.0.attenuations@, out.0.light, out.1),
        depth == 0 ==> out.0.attenuations@.len() == 0 && out.0.light == Light::Black && out.1
            == source,
        out.0.attenuations@.len() <= depth,
{
    let mut current = source;
    let mut attenuations: Vec<Color> = Vec::new();
    let mut ray = r;
    let mut left: u32 = depth;
    while left > 0
        invariant
            forall|ray: Ray, t_min: Scalar, t_max: Scalar| call_requires(*hit, (ray, t_min, t_max)),
            forall|ray: Ray, rec: HitRecord, g: G| call_requires(*scatter, (ray, rec, g)),
            attenuations@.len() + left <= depth,
            depth == 0 ==> attenuations@.len() == 0 && current == source,
            forall|rest: Seq<Color>, light: Light, after: G| #[trigger]
                traced(*hit, *scatter, ray, left as nat, current, rest, light, after) ==> traced(
                    *hit,
                    *scatter,
                    r,
                    depth as nat,
                    source,
                    attenuations@ + rest,
                    light,
                    after,
                ),
        decreases left,
    {
        let found = hit(ray, shadow_bias(), Scalar::infinity());
        match found {
            None => {
                proof {
                    let rest = Seq::<Color>::empty();
                    assert(traced(
                        *hit,
                        *scatter,
                        ray,
                        left as nat,
                        current,
                        rest,
                        Light::Sky(ray.dir),
                        current,
                    ));
                }
                return (Radiance { attenuations, light: Light::Sky(ray.direction()) }, current);
            },
            Some(rec) => {
                let ghost drawn_from = current;
                let (scattered, handed_back) = scatter(ray, rec, current);
                current = handed_back;
                match scattered {
                    None => {
                        proof {
                            let rest = Seq::<Color>::empty();
                            assert(traced(
                                *hit,
                                *scatter,
                                ray,
                                left as nat,
                                drawn_from,
                                rest,
                                Light::Black,
                                current,
                            ));
                        }
                        return (Radiance { attenuations, light: Light::Black }, current);
                    },
                    Some((attenuation, next)) => {
                        let ghost before = attenuations@;
                        let ghost from = ray;
                        let ghost bounces = left as nat;
                        attenuations.push(attenuation);
                        ray = next;
                        left = left - 1;
                        proof {
                            assert forall|rest: Seq<Color>, light: Light, after: G| #[trigger]
                                traced(
                                    *hit,
                                    *scatter,
                                    ray,
                                    left as nat,
                                    current,
                                    rest,
                                    light,
                                    after,
                                ) implies traced(
                                *hit,
                                *scatter,
                                r,
                                depth as nat,
                                source,
                                attenuations@ + rest,
                                light,
                                after,
                            ) by {
                                let longer = seq![attenuation] + rest;
                                assert(longer.skip(1) =~= rest);
                                assert(traced(
                                    *hit,
                                    *scatter,
                                    from,
                                    bounces,
                                    drawn_from,
                                    longer,
                                    light,
                                    after,
                                ));
                                assert(before + longer =~= attenuations@ + rest);
                            }
                        }
                    },
                }
            },
        }
    }
    proof {
        let rest = Seq::<Color>::empty();
        assert(traced(*hit, *scatter, ray, 0, current, rest, Light::Black, current));
    }
    (Radiance { attenuations, light: Light::Black }, current)
}

/// Whether `hit` and `scatter` give one answer to each question.
pub open spec fn single_valued<G, H, S>(hit: H, scatter: S) -> bool where
    H: Fn(Ray, Scalar, Scalar) -> Option<HitRecord>,
    S: Fn(Ray, HitRecord, G) -> (Option<(Color, Ray)>, G),
 {
    &&& forall|asked: (Ray, Scalar, Scalar), a: Option<HitRecord>, b: Option<HitRecord>|
        #![trigger hit.ensures(asked, a), hit.ensures(asked, b)]
        hit.ensures(asked, a) && hit.ensures(asked, b) ==> a == b
    &&& forall|
        asked: (Ray, HitRecord, G),
        a: (Option<(Color, Ray)>, G),
        b: (Option<(Color, Ray)>, G),
    |
        #![trigger scatter.ensures(asked, a), scatter.ensures(asked, b)]
        scatter.ensures(asked, a) && scatter.ensures(asked, b) ==> a == b
}

/// A path is determined by the answers it gets and the random source it
/// starts with: where `hit` and `scatter` give one answer to each question, a
/// ray, a depth and a source have one path, and it leaves one source.
pub proof fn path_is_determined<G, H, S>(
    hit: H,
    scatter: S,
    r: Ray,
    depth: nat,
    source: G,
    attenuations: Seq<Color>,
    light: Light,
    after: G,
    other_attenuations: Seq<Color>,
    other_light: Light,
    other_after: G,
) where
    H: Fn(Ray, Scalar, Scalar) -> Option<HitRecord>,
    S: Fn(Ray, HitRecord, G) -> (Option<(Color, Ray)>, G),

    requires
        single_valued(hit, scatter),
        traced(hit, scatter, r, depth, source, attenuations, light, after),
        traced(hit, scatter, r, depth, source, other_attenuations, other_light, other_after),
    ensures
        attenuations == other_attenuations,
        light == other_light,
        after == other_after,
    decreases depth,
{
    if depth == 0 {
        assert(attenuations =~= other_attenuations);
    } else {
        let asked = (r, shadow_bias(), Scalar::infinity());
        let found = choose|found: Option<HitRecord>| #[trigger]
            hit.ensures(asked, found) && after_hit(
                hit,
                scatter,
                r,
                depth,
                source,
                found,
                attenuations,
                light,
                after,
            );
        let other_found = choose|found: Option<HitRecord>| #[trigger]
            hit.ensures(asked, found) && after_hit(
                hit,
                scatter,
                r,
                depth,
                source,
                found,
                other_attenuations,
                other_light,
                other_after,
            );
        assert(found == other_found);
        match found {
            None => {
                assert(attenuations =~= other_attenuations);
            },
            Some(rec) => {
                let out = choose|out: (Option<(Color, Ray)>, G)| #[trigger]
                    scatter.ensures((r, rec, source), out) && after_scatter(
                        hit,
                        scatter,
                        depth,
                        out.0,
                        out.1,
                        attenuations,
                        light,
                        after,
                    );
                let other_out = choose|out: (Option<(Color, Ray)>, G)| #[trigger]
                    scatter.ensures((r, rec, source), out) && after_scatter(
                        hit,
                        scatter,
                        depth,
                        out.0,
                        out.1,
                        other_attenuations,
                        other_light,
                        other_after,
                    );
                assert(out == other_out);
                match out.0 {
                    None => {
                        assert(attenuations =~= other_attenuations);
                    },
                    Some((attenuation, scattered)) => {
                        path_is_determined(
                            hit,
                            scatter,
                            scattered,
                            (depth - 1) as nat,
                            out.1,
                            attenuations.skip(1),
                            light,
                            after,
                            other_attenuations.skip(1),
                            other_light,
                            other_after,
                        );
                        assert(attenuations =~= seq![attenuation] + attenuations.skip(1));
                        assert(other_attenuations =~= seq![attenuation] + other_attenuations.skip(
                            1,
                        ));
                    },
                }
            },
        }
    }
}

/// A ray that hits nothing sees the sky along itself: where the scene has no
/// hit for `r` and a bounce is left, the path has no attenuation, ends at the
/// sky in the direction of `r`, and leaves the random source untouched.
pub proof fn missed_ray_sees_sky<G, H, S>(
    hit: H,
    scatter: S,
    r: Ray,
    depth: nat,
    source: G,
    attenuations: Seq<Color>,
    light: Light,
    after: G,
) where
    H: Fn(Ray, Scalar, Scalar) -> Option<HitRecord>,
    S: Fn(Ray, HitRecord, G) -> (Option<(Color, Ray)>, G),

    requires
        depth > 0,
        traced(hit, scatter, r, depth, source, attenuations, light, after),
        forall|found: Option<HitRecord>| #[trigger]
            hit.ensures((r, shadow_bias(), Scalar::infinity()), found) ==> found is None,
    ensures
        attenuations.len() == 0,
        light == Light::Sky(r.dir),
        after == source,
{
}

} // verus!
