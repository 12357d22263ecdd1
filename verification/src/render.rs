//! The work of one render unit: a block of pixels, each sampled by as many
//! light paths as the picture asks for.

use vstd::prelude::*;
use std::ops::Range;
use crate::scalar::Scalar;
use crate::vec3::Color;
use crate::ray::Ray;
use crate::hittable::HitRecord;
use crate::integrator::{path_is_determined, ray_color, single_valued, traced, Radiance};

verus! {

/// One pixel: red, green and blue.
pub type Rgb8 = [u8; 3];

/// The bits of 0.999, the largest channel value that is written.
pub const CHANNEL_MAX_BITS: u64 = 0x3FEF_F7CE_D916_872B;

/// The size of the picture and the effort spent on each pixel.
#[derive(Clone, Copy, Debug, PartialEq, Eq, Structural)]
pub struct ImageData {
    pub aspect_ratio: Scalar,
    pub image_width: u32,
    pub image_height: u32,
    pub samples_per_pixel: u32,
    pub max_depth: u32,
}

/// The number of indices in a range.
pub open spec fn span(range: Range<u32>) -> nat {
    if range.start < range.end {
        (range.end - range.start) as nat
    } else {
        0
    }
}

/// Whether `units` cut the rows of a picture `image_height` high into
/// consecutive groups of `step` rows, the last one of what is left: the first
/// starts at row 0, each starts where the one before ends, none is empty, and
/// the last ends at the bottom.
pub open spec fn cut_into(units: Seq<Range<u32>>, image_height: u32, step: u32) -> bool {
    &&& units.len() == 0 <==> image_height == 0
    &&& units.len() > 0 ==> units[0].start == 0 && units.last().end == image_height
    &&& forall|k: int|
        0 <= k < units.len() ==> {
            &&& (#[trigger] units[k]).start < units[k].end
            &&& span(units[k]) <= step
            &&& k + 1 < units.len() ==> units[k].end == units[k + 1].start && span(units[k])
                == step
        }
}

/// The units of work of a picture: its rows from the top down, in groups of
/// `step`.
pub fn row_units(image_height: u32, step: u32) -> (units: Vec<Range<u32>>)
    requires
        step > 0,
    ensures
        cut_into(units@, image_height, step),
{
    let mut units: Vec<Range<u32>> = Vec::new();
    let mut y: u32 = 0;
    while y < image_height
        invariant
            step > 0,
            y <= image_height,
            units@.len() == 0 <==> y == 0,
            units@.len() > 0 ==> units@[0].start == 0 && units@.last().end == y,
            forall|k: int|
                0 <= k < units@.len() ==> {
                    &&& (#[trigger] units@[k]).start < units@[k].end
                    &&& span(units@[k]) <= step
                    &&& units@[k].end <= y
                    &&& k + 1 < units@.len() ==> units@[k].end == units@[k + 1].start && span(
                        units@[k],
                    ) == step
                    &&& units@[k].end < image_height ==> span(units@[k]) == step
                },
        decreases image_height - y,
    {
        let end: u32 = if image_height - y > step {
            y + step
        } else {
            image_height
        };
        units.push(y..end);
        y = end;
    }
    units
}

/// The channel value that is written for `value`: 0 where `value` is below 0
/// or not a number, 0.999 where it is above that, else `value`.
pub open spec fn spec_clamp_channel(value: Scalar) -> Scalar {
    if value.is_nan() || value.lt(Scalar::zero()) {
        Scalar::zero()
    } else if value.gt(Scalar { bits: CHANNEL_MAX_BITS }) {
        Scalar { bits: CHANNEL_MAX_BITS }
    } else {
        value
    }
}

/// Clamps a channel value to `[0, 0.999]`, so that its product with 255.999
/// truncates to a byte.
#[verifier::when_used_as_spec(spec_clamp_channel)]
pub fn clamp_channel(value: Scalar) -> (clamped: Scalar)
    ensures
        clamped == spec_clamp_channel(value),
        Scalar::zero().le(clamped),
        clamped.le(Scalar { bits: CHANNEL_MAX_BITS }),
{
    let top = Scalar::from_bits(CHANNEL_MAX_BITS);
    if value.is_nan() || value.lt(Scalar::zero()) {
        Scalar::zero()
    } else if value.gt(top) {
        top
    } else {
        value
    }
}

/// The image-plane coordinate that a ray is aimed at for `value`: 0 where
/// `value` is below 0 or not a number, 1 where it is above 1, else `value`.
pub open spec fn spec_clamp_coordinate(value: Scalar) -> Scalar {
    if value.is_nan() || value.lt(Scalar::zero()) {
        Scalar::zero()
    } else if value.gt(Scalar::one()) {
        Scalar::one()
    } else {
        value
    }
}

/// Whether a coordinate lies on the image plane, in `[0, 1]`.
pub open spec fn is_coordinate(value: Scalar) -> bool {
    Scalar::zero().le(value) && value.le(Scalar::one())
}

/// Clamps a normalised image coordinate to `[0, 1]`, the extent of the image
/// plane.
#[verifier::when_used_as_spec(spec_clamp_coordinate)]
pub fn clamp_coordinate(value: Scalar) -> (clamped: Scalar)
    ensures
        clamped == spec_clamp_coordinate(value),
        is_coordinate(clamped),
{
    if value.is_nan() || value.lt(Scalar::zero()) {
        Scalar::zero()
    } else if value.gt(Scalar::one()) {
        Scalar::one()
    } else {
        value
    }
}

/// What `camera` is asked for a place that `place` gave: the ray through the
/// place with both coordinates clamped to `[0, 1]`, with the random source as
/// `place` left it.
pub open spec fn aimed_at<G>(spot: ((Scalar, Scalar), G)) -> (Scalar, Scalar, G) {
    (clamp_coordinate(spot.0.0), clamp_coordinate(spot.0.1), spot.1)
}

/// Whether `samples` can be the light paths of one pixel, taken one after
/// another from the random source `source`, which they leave as `after`.
/// For each, `place` gives a place on the image plane for the pixel at
/// column `i`, `j` rows above the bottom; its two coordinates are clamped to
/// `[0, 1]`; `camera` gives the ray through that place; and the sample is a
/// path of at most `depth` bounces along that ray.
pub open spec fn sampled<G, P, C, H, S>(
    place: P,
    camera: C,
    hit: H,
    scatter: S,
    i: u32,
    j: u32,
    depth: u32,
    source: G,
    samples: Seq<Radiance>,
    after: G,
) -> bool where
    P: Fn(u32, u32, G) -> ((Scalar, Scalar), G),
    C: Fn(Scalar, Scalar, G) -> (Ray, G),
    H: Fn(Ray, Scalar, Scalar) -> Option<HitRecord>,
    S: Fn(Ray, HitRecord, G) -> (Option<(Color, Ray)>, G),

    decreases samples.len(),
{
    if samples.len() == 0 {
        after == source
    } else {
        exists|before: G, spot: ((Scalar, Scalar), G), shot: (Ray, G)|
            #![trigger place.ensures((i, j, before), spot), camera.ensures(aimed_at(spot), shot)]
            {
                &&& sampled(
                    place,
                    camera,
                    hit,
                    scatter,
                    i,
                    j,
                    depth,
                    source,
                    samples.drop_last(),
                    before,
                )
                &&& place.ensures((i, j, before), spot)
                &&& camera.ensures(aimed_at(spot), shot)
                &&& traced(
                    hit,
                    scatter,
                    shot.0,
                    depth as nat,
                    shot.1,
                    samples.last().attenuations@,
                    samples.last().light,
                    after,
                )
            }
    }
}

/// Whether `pixel` is what `quantize` makes of the channels of `colour`, each
/// clamped to `[0, 0.999]`.
pub open spec fn quantized<Q>(quantize: Q, colour: Color, pixel: Rgb8) -> bool where
    Q: Fn(Scalar) -> u8,
 {
    &&& quantize.ensures((clamp_channel(colour.v0),), pixel[0])
    &&& quantize.ensures((clamp_channel(colour.v1),), pixel[1])
    &&& quantize.ensures((clamp_channel(colour.v2),), pixel[2])
}

/// Whether `pixel` can be the pixel at column `i`, `j` rows above the
/// bottom, rendered from the random source `source`, which is left as
/// `after`: as many light paths as the picture takes samples, each of at most
/// `max_depth` bounces, are developed into one colour, and each channel of
/// that colour is clamped to `[0, 0.999]` and made a byte.
pub open spec fn rendered<G, P, C, H, S, D, Q>(
    place: P,
    camera: C,
    hit: H,
    scatter: S,
    develop: D,
    quantize: Q,
    img_data: ImageData,
    i: u32,
    j: u32,
    source: G,
    pixel: Rgb8,
    after: G,
) -> bool where
    P: Fn(u32, u32, G) -> ((Scalar, Scalar), G),
    C: Fn(Scalar, Scalar, G) -> (Ray, G),
    H: Fn(Ray, Scalar, Scalar) -> Option<HitRecord>,
    S: Fn(Ray, HitRecord, G) -> (Option<(Color, Ray)>, G),
    D: Fn(Vec<Radiance>) -> Color,
    Q: Fn(Scalar) -> u8,
 {
    exists|samples: Vec<Radiance>, colour: Color|
        {
            &&& samples@.len() == img_data.samples_per_pixel
            &&& sampled(place, camera, hit, scatter, i, j, img_data.max_depth, source, samples@, after)
            &&& #[trigger] develop.ensures((samples,), colour)
            &&& quantized(quantize, colour, pixel)
        }
}

/// Whether a channel value lies in `[0, 0.999]`.
pub open spec fn is_channel(value: Scalar) -> bool {
    Scalar::zero().le(value) && value.le(Scalar { bits: CHANNEL_MAX_BITS })
}

/// The pixel at column `i`, `j` rows above the bottom.
///
/// `samples_per_pixel` times `place` gives a place on the image plane within
/// the pixel, its coordinates are clamped to `[0, 1]`, the ray through it is
/// asked of `camera` and followed for at most `max_depth` bounces. `place`,
/// `camera` and `scatter` draw from the random source and hand it back.
/// `develop` turns the paths into one colour: the
/// mean of their colours, gamma-corrected. Each channel of it is clamped to
/// `[0, 0.999]` and handed to `quantize`, which makes the byte.
pub fn render_pixel<G, P, C, H, S, D, Q>(
    img_data: ImageData,
    i: u32,
    j: u32,
    place: &P,
    camera: &C,
    hit: &H,
    scatter: &S,
    develop: &D,
    quantize: &Q,
    source: G,
) -> (out: (Rgb8, G)) where
    P: Fn(u32, u32, G) -> ((Scalar, Scalar), G),
    C: Fn(Scalar, Scalar, G) -> (Ray, G),
    H: Fn(Ray, Scalar, Scalar) -> Option<HitRecord>,
    S: Fn(Ray, HitRecord, G) -> (Option<(Color, Ray)>, G),
    D: Fn(Vec<Radiance>) -> Color,
    Q: Fn(Scalar) -> u8,

    requires
        forall|i: u32, j: u32, g: G| call_requires(*place, (i, j, g)),
        forall|s: Scalar, t: Scalar, g: G|
            is_coordinate(s) && is_coordinate(t) ==> #[trigger] call_requires(*camera, (s, t, g)),
        forall|ray: Ray, t_min: Scalar, t_max: Scalar| call_requires(*hit, (ray, t_min, t_max)),
        forall|ray: Ray, rec: HitRecord, g: G| call_requires(*scatter, (ray, rec, g)),
        forall|samples: Vec<Radiance>| call_requires(*develop, (samples,)),
        forall|value: Scalar| is_channel(value) ==> #[trigger] call_requires(*quantize, (value,)),
    ensures
        rendered(
            *place,
            *camera,
            *hit,
            *scatter,
            *develop,
            *quantize,
            img_data,
            i,
            j,
            source,
            out.0,
            out.1,
        ),
{
    let mut current = source;
    let mut samples: Vec<Radiance> = Vec::new();
    let mut n: u32 = 0;
    while n < img_data.samples_per_pixel
        invariant
            forall|i: u32, j: u32, g: G| call_requires(*place, (i, j, g)),
        forall|s: Scalar, t: Scalar, g: G|
            is_coordinate(s) && is_coordinate(t) ==> #[trigger] call_requires(*camera, (s, t, g)),
            forall|ray: Ray, t_min: Scalar, t_max: Scalar|
                call_requires(*hit, (ray, t_min, t_max)),
            forall|ray: Ray, rec: HitRecord, g: G| call_requires(*scatter, (ray, rec, g)),
            forall|samples: Vec<Radiance>| call_requires(*develop, (samples,)),
            forall|value: Scalar| is_channel(value) ==> #[trigger] call_requires(*quantize, (value,)),
            n <= img_data.samples_per_pixel,
            samples@.len() == n,
            sampled(
                *place,
                *camera,
                *hit,
                *scatter,
                i,
                j,
                img_data.max_depth,
                source,
                samples@,
                current,
            ),
        decreases img_data.samples_per_pixel - n,
    {
        let ghost taken = samples@;
        let ghost before = current;
        let (spot, placed) = place(i, j, current);
        let (ray, aimed) = camera(clamp_coordinate(spot.0), clamp_coordinate(spot.1), placed);
        let (path, left) = ray_color(ray, hit, scatter, img_data.max_depth, aimed);
        samples.push(path);
        current = left;
        proof {
            assert(samples@.drop_last() =~= taken);
            assert(call_ensures(*place, (i, j, before), (spot, placed)));
            assert(call_ensures(*camera, aimed_at((spot, placed)), (ray, aimed)));
        }
        n = n + 1;
    }
    let colour = develop(samples);
    let red = quantize(clamp_channel(colour.x()));
    let green = quantize(clamp_channel(colour.y()));
    let blue = quantize(clamp_channel(colour.z()));
    ([red, green, blue], current)
}

/// Whether `row` can be a row of pixels that starts at column
/// `first_column`, `j` rows above the bottom, each pixel rendered after the
/// one to its left, from the random source `source`, which is left as
/// `after`.
pub open spec fn row_rendered<G, P, C, H, S, D, Q>(
    place: P,
    camera: C,
    hit: H,
    scatter: S,
    develop: D,
    quantize: Q,
    img_data: ImageData,
    first_column: u32,
    j: u32,
    source: G,
    row: Seq<Rgb8>,
    after: G,
) -> bool where
    P: Fn(u32, u32, G) -> ((Scalar, Scalar), G),
    C: Fn(Scalar, Scalar, G) -> (Ray, G),
    H: Fn(Ray, Scalar, Scalar) -> Option<HitRecord>,
    S: Fn(Ray, HitRecord, G) -> (Option<(Color, Ray)>, G),
    D: Fn(Vec<Radiance>) -> Color,
    Q: Fn(Scalar) -> u8,

    decreases row.len(),
{
    if row.len() == 0 {
        after == source
    } else {
        exists|before: G|
            {
                &&& row_rendered(
                    place,
                    camera,
                    hit,
                    scatter,
                    develop,
                    quantize,
                    img_data,
                    first_column,
                    j,
                    source,
                    row.drop_last(),
                    before,
                )
                &&& #[trigger] rendered(
                    place,
                    camera,
                    hit,
                    scatter,
                    develop,
                    quantize,
                    img_data,
                    (first_column + row.len() - 1) as u32,
                    j,
                    before,
                    row.last(),
                    after,
                )
            }
    }
}

/// Whether `rows` can be rows of pixels over the columns `x_range`, the
/// first of them row `first_row` of the picture counted from the top, each
/// rendered after the one above it, from the random source `source`, which
/// is left as `after`. The row that is `r` below the first lies
/// `image_height - 1 - (first_row + r)` above the bottom of the picture.
pub open spec fn rows_rendered<G, P, C, H, S, D, Q>(
    place: P,
    camera: C,
    hit: H,
    scatter: S,
    develop: D,
    quantize: Q,
    img_data: ImageData,
    x_range: Range<u32>,
    first_row: u32,
    source: G,
    rows: Seq<Vec<Rgb8>>,
    after: G,
) -> bool where
    P: Fn(u32, u32, G) -> ((Scalar, Scalar), G),
    C: Fn(Scalar, Scalar, G) -> (Ray, G),
    H: Fn(Ray, Scalar, Scalar) -> Option<HitRecord>,
    S: Fn(Ray, HitRecord, G) -> (Option<(Color, Ray)>, G),
    D: Fn(Vec<Radiance>) -> Color,
    Q: Fn(Scalar) -> u8,

    decreases rows.len(),
{
    if rows.len() == 0 {
        after == source
    } else {
        exists|before: G|
            {
                &&& rows_rendered(
                    place,
                    camera,
                    hit,
                    scatter,
                    develop,
                    quantize,
                    img_data,
                    x_range,
                    first_row,
                    source,
                    rows.drop_last(),
                    before,
                )
                &&& rows.last()@.len() == span(x_range)
                &&& #[trigger] row_rendered(
                    place,
                    camera,
                    hit,
                    scatter,
                    develop,
                    quantize,
                    img_data,
                    x_range.start,
                    (img_data.image_height - 1 - (first_row + rows.len() - 1)) as u32,
                    before,
                    rows.last()@,
                    after,
                )
            }
    }
}

/// Whether `img` can be the block of the columns `x_range` and the rows
/// `y_range`, rendered from the random source `source`, which is left as
/// `after`: it has one row for each row of `y_range`, from the top down, and
/// in each one pixel for each column of `x_range`, from the left, rendered in
/// that order.
pub open spec fn is_block<G, P, C, H, S, D, Q>(
    place: P,
    camera: C,
    hit: H,
    scatter: S,
    develop: D,
    quantize: Q,
    img_data: ImageData,
    x_range: Range<u32>,
    y_range: Range<u32>,
    source: G,
    img: Vec<Vec<Rgb8>>,
    after: G,
) -> bool where
    P: Fn(u32, u32, G) -> ((Scalar, Scalar), G),
    C: Fn(Scalar, Scalar, G) -> (Ray, G),
    H: Fn(Ray, Scalar, Scalar) -> Option<HitRecord>,
    S: Fn(Ray, HitRecord, G) -> (Option<(Color, Ray)>, G),
    D: Fn(Vec<Radiance>) -> Color,
    Q: Fn(Scalar) -> u8,
 {
    &&& img@.len() == span(y_range)
    &&& rows_rendered(
        place,
        camera,
        hit,
        scatter,
        develop,
        quantize,
        img_data,
        x_range,
        y_range.start,
        source,
        img@,
        after,
    )
}

/// Renders the pixels of the columns `x_range` and the rows `y_range` of the
/// picture, rows counted from the top: row after row from the top down and
/// in each row pixel after pixel from the left, each as `render_pixel` does
/// for its column and for its height above the bottom of the picture, with
/// one random source handed from pixel to pixel.
pub fn parallel_create_picture<G, P, C, H, S, D, Q>(
    x_range: Range<u32>,
    y_range: Range<u32>,
    img_data: ImageData,
    place: &P,
    camera: &C,
    hit: &H,
    scatter: &S,
    develop: &D,
    quantize: &Q,
    source: G,
) -> (out: (Vec<Vec<Rgb8>>, G)) where
    P: Fn(u32, u32, G) -> ((Scalar, Scalar), G),
    C: Fn(Scalar, Scalar, G) -> (Ray, G),
    H: Fn(Ray, Scalar, Scalar) -> Option<HitRecord>,
    S: Fn(Ray, HitRecord, G) -> (Option<(Color, Ray)>, G),
    D: Fn(Vec<Radiance>) -> Color,
    Q: Fn(Scalar) -> u8,

    requires
        y_range.start < y_range.end ==> y_range.end <= img_data.image_height,
        forall|i: u32, j: u32, g: G| call_requires(*place, (i, j, g)),
        forall|s: Scalar, t: Scalar, g: G|
            is_coordinate(s) && is_coordinate(t) ==> #[trigger] call_requires(*camera, (s, t, g)),
        forall|ray: Ray, t_min: Scalar, t_max: Scalar| call_requires(*hit, (ray, t_min, t_max)),
        forall|ray: Ray, rec: HitRecord, g: G| call_requires(*scatter, (ray, rec, g)),
        forall|samples: Vec<Radiance>| call_requires(*develop, (samples,)),
        forall|value: Scalar| is_channel(value) ==> #[trigger] call_requires(*quantize, (value,)),
    ensures
        is_block(
            *place,
            *camera,
            *hit,
            *scatter,
            *develop,
            *quantize,
            img_data,
            x_range,
            y_range,
            source,
            out.0,
            out.1,
        ),
{
    let mut current = source;
    let mut img: Vec<Vec<Rgb8>> = Vec::new();
    let mut y: u32 = y_range.start;
    while y < y_range.end
        invariant
            y_range.start < y_range.end ==> y_range.end <= img_data.image_height,
            forall|i: u32, j: u32, g: G| call_requires(*place, (i, j, g)),
        forall|s: Scalar, t: Scalar, g: G|
            is_coordinate(s) && is_coordinate(t) ==> #[trigger] call_requires(*camera, (s, t, g)),
            forall|ray: Ray, t_min: Scalar, t_max: Scalar|
                call_requires(*hit, (ray, t_min, t_max)),
            forall|ray: Ray, rec: HitRecord, g: G| call_requires(*scatter, (ray, rec, g)),
            forall|samples: Vec<Radiance>| call_requires(*develop, (samples,)),
            forall|value: Scalar| is_channel(value) ==> #[trigger] call_requires(*quantize, (value,)),
            y_range.start <= y,
            y <= y_range.end || span(y_range) == 0,
            img@.len() == if y_range.start < y_range.end {
                (y - y_range.start) as nat
            } else {
                0
            },
            rows_rendered(
                *place,
                *camera,
                *hit,
                *scatter,
                *develop,
                *quantize,
                img_data,
                x_range,
                y_range.start,
                source,
                img@,
                current,
            ),
        decreases y_range.end - y,
    {
        let j: u32 = img_data.image_height - 1 - y;
        let ghost above = img@;
        let ghost row_start = current;
        let mut row: Vec<Rgb8> = Vec::new();
        let mut x: u32 = x_range.start;
        while x < x_range.end
            invariant
                forall|i: u32, j: u32, g: G| call_requires(*place, (i, j, g)),
        forall|s: Scalar, t: Scalar, g: G|
            is_coordinate(s) && is_coordinate(t) ==> #[trigger] call_requires(*camera, (s, t, g)),
                forall|ray: Ray, t_min: Scalar, t_max: Scalar|
                    call_requires(*hit, (ray, t_min, t_max)),
                forall|ray: Ray, rec: HitRecord, g: G| call_requires(*scatter, (ray, rec, g)),
                forall|samples: Vec<Radiance>| call_requires(*develop, (samples,)),
                forall|value: Scalar| is_channel(value) ==> #[trigger] call_requires(*quantize, (value,)),
                x_range.start <= x,
                x <= x_range.end || span(x_range) == 0,
                row@.len() == if x_range.start < x_range.end {
                    (x - x_range.start) as nat
                } else {
                    0
                },
                row_rendered(
                    *place,
                    *camera,
                    *hit,
                    *scatter,
                    *develop,
                    *quantize,
                    img_data,
                    x_range.start,
                    j,
                    row_start,
                    row@,
                    current,
                ),
            decreases x_range.end - x,
        {
            let ghost left_of = row@;
            let (pixel, handed_back) = render_pixel(
                img_data,
                x,
                j,
                place,
                camera,
                hit,
                scatter,
                develop,
                quantize,
                current,
            );
            current = handed_back;
            row.push(pixel);
            proof {
                assert(row@.drop_last() =~= left_of);
                assert(row@.last() == pixel);
                assert((x_range.start + row@.len() - 1) as u32 == x);
            }
            x = x + 1;
        }
        let ghost finished = row@;
        img.push(row);
        proof {
            assert(img@.drop_last() =~= above);
            assert(img@.last()@ == finished);
            assert(j == (img_data.image_height - 1 - (y_range.start + img@.len() - 1)) as u32);
        }
        y = y + 1;
    }
    (img, current)
}

/// Whether `pixel` can be the pixel at column `i`, `j` rows above the
/// bottom, rendered from some random source.
pub open spec fn is_rendering<G, P, C, H, S, D, Q>(
    place: P,
    camera: C,
    hit: H,
    scatter: S,
    develop: D,
    quantize: Q,
    img_data: ImageData,
    i: u32,
    j: u32,
    pixel: Rgb8,
) -> bool where
    P: Fn(u32, u32, G) -> ((Scalar, Scalar), G),
    C: Fn(Scalar, Scalar, G) -> (Ray, G),
    H: Fn(Ray, Scalar, Scalar) -> Option<HitRecord>,
    S: Fn(Ray, HitRecord, G) -> (Option<(Color, Ray)>, G),
    D: Fn(Vec<Radiance>) -> Color,
    Q: Fn(Scalar) -> u8,
 {
    exists|source: G, after: G| #[trigger]
        rendered(place, camera, hit, scatter, develop, quantize, img_data, i, j, source, pixel, after)
}

/// Whether `img` can be the block of the columns `x_range` and the rows
/// `y_range`, rendered from some random source.
pub open spec fn is_block_of<G, P, C, H, S, D, Q>(
    place: P,
    camera: C,
    hit: H,
    scatter: S,
    develop: D,
    quantize: Q,
    img_data: ImageData,
    x_range: Range<u32>,
    y_range: Range<u32>,
    img: Vec<Vec<Rgb8>>,
) -> bool where
    P: Fn(u32, u32, G) -> ((Scalar, Scalar), G),
    C: Fn(Scalar, Scalar, G) -> (Ray, G),
    H: Fn(Ray, Scalar, Scalar) -> Option<HitRecord>,
    S: Fn(Ray, HitRecord, G) -> (Option<(Color, Ray)>, G),
    D: Fn(Vec<Radiance>) -> Color,
    Q: Fn(Scalar) -> u8,
 {
    exists|source: G, after: G| #[trigger]
        is_block(place, camera, hit, scatter, develop, quantize, img_data, x_range, y_range, source, img, after)
}

/// The pixel `c` of a rendered row is a rendering of its column.
proof fn lemma_pixel_of_row<G, P, C, H, S, D, Q>(
    place: P,
    camera: C,
    hit: H,
    scatter: S,
    develop: D,
    quantize: Q,
    img_data: ImageData,
    first_column: u32,
    j: u32,
    source: G,
    row: Seq<Rgb8>,
    after: G,
    c: int,
) where
    P: Fn(u32, u32, G) -> ((Scalar, Scalar), G),
    C: Fn(Scalar, Scalar, G) -> (Ray, G),
    H: Fn(Ray, Scalar, Scalar) -> Option<HitRecord>,
    S: Fn(Ray, HitRecord, G) -> (Option<(Color, Ray)>, G),
    D: Fn(Vec<Radiance>) -> Color,
    Q: Fn(Scalar) -> u8,

    requires
        row_rendered(place, camera, hit, scatter, develop, quantize, img_data, first_column, j, source, row, after),
        0 <= c < row.len(),
    ensures
        is_rendering(place, camera, hit, scatter, develop, quantize, img_data, (first_column + c) as u32, j, row[c]),
    decreases row.len(),
{
    let column = (first_column + row.len() - 1) as u32;
    let before = choose|before: G|
        {
            &&& row_rendered(place, camera, hit, scatter, develop, quantize, img_data, first_column, j, source, row.drop_last(), before)
            &&& #[trigger] rendered(place, camera, hit, scatter, develop, quantize, img_data, column, j, before, row.last(), after)
        };
    if c < row.len() - 1 {
        lemma_pixel_of_row(place, camera, hit, scatter, develop, quantize, img_data, first_column, j, source, row.drop_last(), before, c);
        assert(row.drop_last()[c] == row[c]);
    }
}

/// The row `r` of rendered rows spans the columns.
proof fn lemma_width_of_rows<G, P, C, H, S, D, Q>(
    place: P,
    camera: C,
    hit: H,
    scatter: S,
    develop: D,
    quantize: Q,
    img_data: ImageData,
    x_range: Range<u32>,
    first_row: u32,
    source: G,
    rows: Seq<Vec<Rgb8>>,
    after: G,
    r: int,
) where
    P: Fn(u32, u32, G) -> ((Scalar, Scalar), G),
    C: Fn(Scalar, Scalar, G) -> (Ray, G),
    H: Fn(Ray, Scalar, Scalar) -> Option<HitRecord>,
    S: Fn(Ray, HitRecord, G) -> (Option<(Color, Ray)>, G),
    D: Fn(Vec<Radiance>) -> Color,
    Q: Fn(Scalar) -> u8,

    requires
        rows_rendered(place, camera, hit, scatter, develop, quantize, img_data, x_range, first_row, source, rows, after),
        0 <= r < rows.len(),
    ensures
        rows[r]@.len() == span(x_range),
    decreases rows.len(),
{
    let j = (img_data.image_height - 1 - (first_row + rows.len() - 1)) as u32;
    let before = choose|before: G|
        {
            &&& rows_rendered(place, camera, hit, scatter, develop, quantize, img_data, x_range, first_row, source, rows.drop_last(), before)
            &&& rows.last()@.len() == span(x_range)
            &&& #[trigger] row_rendered(place, camera, hit, scatter, develop, quantize, img_data, x_range.start, j, before, rows.last()@, after)
        };
    if r < rows.len() - 1 {
        lemma_width_of_rows(place, camera, hit, scatter, develop, quantize, img_data, x_range, first_row, source, rows.drop_last(), before, r);
        assert(rows.drop_last()[r] == rows[r]);
    }
}

/// The pixel `c` of row `r` of rendered rows is a rendering of its column and
/// of its height above the bottom.
proof fn lemma_pixel_of_rows<G, P, C, H, S, D, Q>(
    place: P,
    camera: C,
    hit: H,
    scatter: S,
    develop: D,
    quantize: Q,
    img_data: ImageData,
    x_range: Range<u32>,
    first_row: u32,
    source: G,
    rows: Seq<Vec<Rgb8>>,
    after: G,
    r: int,
    c: int,
) where
    P: Fn(u32, u32, G) -> ((Scalar, Scalar), G),
    C: Fn(Scalar, Scalar, G) -> (Ray, G),
    H: Fn(Ray, Scalar, Scalar) -> Option<HitRecord>,
    S: Fn(Ray, HitRecord, G) -> (Option<(Color, Ray)>, G),
    D: Fn(Vec<Radiance>) -> Color,
    Q: Fn(Scalar) -> u8,

    requires
        rows_rendered(place, camera, hit, scatter, develop, quantize, img_data, x_range, first_row, source, rows, after),
        0 <= r < rows.len(),
        0 <= c < span(x_range),
    ensures
        c < rows[r]@.len(),
        is_rendering(
            place, camera, hit, scatter, develop, quantize, img_data,
            (x_range.start + c) as u32,
            (img_data.image_height - 1 - (first_row + r)) as u32,
            rows[r]@[c],
        ),
    decreases rows.len(),
{
    let j = (img_data.image_height - 1 - (first_row + rows.len() - 1)) as u32;
    let before = choose|before: G|
        {
            &&& rows_rendered(place, camera, hit, scatter, develop, quantize, img_data, x_range, first_row, source, rows.drop_last(), before)
            &&& rows.last()@.len() == span(x_range)
            &&& #[trigger] row_rendered(place, camera, hit, scatter, develop, quantize, img_data, x_range.start, j, before, rows.last()@, after)
        };
    if r < rows.len() - 1 {
        lemma_pixel_of_rows(
            place, camera, hit, scatter, develop, quantize, img_data,
            x_range,
            first_row,
            source,
            rows.drop_last(),
            before,
            r,
            c,
        );
        assert(rows.drop_last()[r] == rows[r]);
    } else {
        lemma_pixel_of_row(place, camera, hit, scatter, develop, quantize, img_data, x_range.start, j, before, rows.last()@, after, c);
    }
}

/// Every row of a block spans its columns.
pub proof fn block_rows_span_the_columns<G, P, C, H, S, D, Q>(
    place: P,
    camera: C,
    hit: H,
    scatter: S,
    develop: D,
    quantize: Q,
    img_data: ImageData,
    x_range: Range<u32>,
    y_range: Range<u32>,
    img: Vec<Vec<Rgb8>>,
    r: int,
) where
    P: Fn(u32, u32, G) -> ((Scalar, Scalar), G),
    C: Fn(Scalar, Scalar, G) -> (Ray, G),
    H: Fn(Ray, Scalar, Scalar) -> Option<HitRecord>,
    S: Fn(Ray, HitRecord, G) -> (Option<(Color, Ray)>, G),
    D: Fn(Vec<Radiance>) -> Color,
    Q: Fn(Scalar) -> u8,

    requires
        is_block_of(place, camera, hit, scatter, develop, quantize, img_data, x_range, y_range, img),
        0 <= r < span(y_range),
    ensures
        img@.len() == span(y_range),
        img@[r]@.len() == span(x_range),
{
    let (source, after) = choose|source: G, after: G| #[trigger]
        is_block(place, camera, hit, scatter, develop, quantize, img_data, x_range, y_range, source, img, after);
    lemma_width_of_rows(place, camera, hit, scatter, develop, quantize, img_data, x_range, y_range.start, source, img@, after, r);
}

/// Every pixel of a block is a rendering of its place in the picture: the
/// pixel at row `r`, column `c` of the block is one of column
/// `x_range.start + c` in the row that lies
/// `image_height - 1 - (y_range.start + r)` above the bottom.
pub proof fn block_holds_renderings<G, P, C, H, S, D, Q>(
    place: P,
    camera: C,
    hit: H,
    scatter: S,
    develop: D,
    quantize: Q,
    img_data: ImageData,
    x_range: Range<u32>,
    y_range: Range<u32>,
    img: Vec<Vec<Rgb8>>,
    r: int,
    c: int,
) where
    P: Fn(u32, u32, G) -> ((Scalar, Scalar), G),
    C: Fn(Scalar, Scalar, G) -> (Ray, G),
    H: Fn(Ray, Scalar, Scalar) -> Option<HitRecord>,
    S: Fn(Ray, HitRecord, G) -> (Option<(Color, Ray)>, G),
    D: Fn(Vec<Radiance>) -> Color,
    Q: Fn(Scalar) -> u8,

    requires
        is_block_of(place, camera, hit, scatter, develop, quantize, img_data, x_range, y_range, img),
        0 <= r < span(y_range),
        0 <= c < span(x_range),
    ensures
        r < img@.len(),
        c < img@[r]@.len(),
        is_rendering(
            place, camera, hit, scatter, develop, quantize, img_data,
            (x_range.start + c) as u32,
            (img_data.image_height - 1 - (y_range.start + r)) as u32,
            img@[r]@[c],
        ),
{
    let (source, after) = choose|source: G, after: G| #[trigger]
        is_block(place, camera, hit, scatter, develop, quantize, img_data, x_range, y_range, source, img, after);
    lemma_pixel_of_rows(place, camera, hit, scatter, develop, quantize, img_data, x_range, y_range.start, source, img@, after, r, c);
}

/// Whether the two lists hold the same paths in the same order.
pub open spec fn same_paths(paths: Seq<Radiance>, others: Seq<Radiance>) -> bool {
    &&& paths.len() == others.len()
    &&& forall|k: int|
        0 <= k < paths.len() ==> {
            &&& (#[trigger] paths[k]).attenuations@ == others[k].attenuations@
            &&& paths[k].light == others[k].light
        }
}

/// Whether `place` and `camera` give one answer to each question.
pub open spec fn aims_one_way<G, P, C>(place: P, camera: C) -> bool where
    P: Fn(u32, u32, G) -> ((Scalar, Scalar), G),
    C: Fn(Scalar, Scalar, G) -> (Ray, G),
 {
    &&& forall|asked: (u32, u32, G), a: ((Scalar, Scalar), G), b: ((Scalar, Scalar), G)|
        #![trigger place.ensures(asked, a), place.ensures(asked, b)]
        place.ensures(asked, a) && place.ensures(asked, b) ==> a == b
    &&& forall|asked: (Scalar, Scalar, G), a: (Ray, G), b: (Ray, G)|
        #![trigger camera.ensures(asked, a), camera.ensures(asked, b)]
        camera.ensures(asked, a) && camera.ensures(asked, b) ==> a == b
}

/// Whether `develop` gives one colour to lists of the same paths, and
/// `quantize` one byte to each channel value.
pub open spec fn develops_one_way<D, Q>(develop: D, quantize: Q) -> bool where
    D: Fn(Vec<Radiance>) -> Color,
    Q: Fn(Scalar) -> u8,
 {
    &&& forall|paths: Vec<Radiance>, others: Vec<Radiance>, a: Color, b: Color|
        #![trigger develop.ensures((paths,), a), develop.ensures((others,), b)]
        same_paths(paths@, others@) && develop.ensures((paths,), a) && develop.ensures(
            (others,),
            b,
        ) ==> a == b
    &&& forall|asked: (Scalar,), a: u8, b: u8|
        #![trigger quantize.ensures(asked, a), quantize.ensures(asked, b)]
        quantize.ensures(asked, a) && quantize.ensures(asked, b) ==> a == b
}

/// Whether every function that the renderer is handed gives one answer to
/// each question: whatever is random in them comes from the source that they
/// are handed.
pub open spec fn repeatable<G, P, C, H, S, D, Q>(
    place: P,
    camera: C,
    hit: H,
    scatter: S,
    develop: D,
    quantize: Q,
) -> bool where
    P: Fn(u32, u32, G) -> ((Scalar, Scalar), G),
    C: Fn(Scalar, Scalar, G) -> (Ray, G),
    H: Fn(Ray, Scalar, Scalar) -> Option<HitRecord>,
    S: Fn(Ray, HitRecord, G) -> (Option<(Color, Ray)>, G),
    D: Fn(Vec<Radiance>) -> Color,
    Q: Fn(Scalar) -> u8,
 {
    &&& aims_one_way(place, camera)
    &&& single_valued(hit, scatter)
    &&& develops_one_way(develop, quantize)
}

/// The samples of a pixel are determined by the random source: where
/// `place`, `camera`, `hit` and `scatter` give one answer to each question,
/// two runs
/// of equally many samples from one source take the same paths and leave the
/// same source.
pub proof fn samples_are_determined<G, P, C, H, S>(
    place: P,
    camera: C,
    hit: H,
    scatter: S,
    i: u32,
    j: u32,
    depth: u32,
    source: G,
    samples: Seq<Radiance>,
    after: G,
    other_samples: Seq<Radiance>,
    other_after: G,
) where
    P: Fn(u32, u32, G) -> ((Scalar, Scalar), G),
    C: Fn(Scalar, Scalar, G) -> (Ray, G),
    H: Fn(Ray, Scalar, Scalar) -> Option<HitRecord>,
    S: Fn(Ray, HitRecord, G) -> (Option<(Color, Ray)>, G),

    requires
        aims_one_way(place, camera),
        single_valued(hit, scatter),
        samples.len() == other_samples.len(),
        sampled(place, camera, hit, scatter, i, j, depth, source, samples, after),
        sampled(place, camera, hit, scatter, i, j, depth, source, other_samples, other_after),
    ensures
        same_paths(samples, other_samples),
        after == other_after,
    decreases samples.len(),
{
    if samples.len() > 0 {
        let (before, spot, shot) = choose|before: G, spot: ((Scalar, Scalar), G), shot: (Ray, G)|
            #![trigger place.ensures((i, j, before), spot), camera.ensures(aimed_at(spot), shot)]
            {
                &&& sampled(
                    place,
                    camera,
                    hit,
                    scatter,
                    i,
                    j,
                    depth,
                    source,
                    samples.drop_last(),
                    before,
                )
                &&& place.ensures((i, j, before), spot)
                &&& camera.ensures(aimed_at(spot), shot)
                &&& traced(
                    hit,
                    scatter,
                    shot.0,
                    depth as nat,
                    shot.1,
                    samples.last().attenuations@,
                    samples.last().light,
                    after,
                )
            };
        let (other_before, other_spot, other_shot) = choose|
            before: G,
            spot: ((Scalar, Scalar), G),
            shot: (Ray, G),
        |
            #![trigger place.ensures((i, j, before), spot), camera.ensures(aimed_at(spot), shot)]
            {
                &&& sampled(
                    place,
                    camera,
                    hit,
                    scatter,
                    i,
                    j,
                    depth,
                    source,
                    other_samples.drop_last(),
                    before,
                )
                &&& place.ensures((i, j, before), spot)
                &&& camera.ensures(aimed_at(spot), shot)
                &&& traced(
                    hit,
                    scatter,
                    shot.0,
                    depth as nat,
                    shot.1,
                    other_samples.last().attenuations@,
                    other_samples.last().light,
                    other_after,
                )
            };
        samples_are_determined(
            place,
            camera,
            hit,
            scatter,
            i,
            j,
            depth,
            source,
            samples.drop_last(),
            before,
            other_samples.drop_last(),
            other_before,
        );
        assert(spot == other_spot);
        assert(shot == other_shot);
        path_is_determined(
            hit,
            scatter,
            shot.0,
            depth as nat,
            shot.1,
            samples.last().attenuations@,
            samples.last().light,
            after,
            other_samples.last().attenuations@,
            other_samples.last().light,
            other_after,
        );
        assert forall|k: int| 0 <= k < samples.len() implies {
            &&& (#[trigger] samples[k]).attenuations@ == other_samples[k].attenuations@
            &&& samples[k].light == other_samples[k].light
        } by {
            if k < samples.len() - 1 {
                assert(samples.drop_last()[k] == samples[k]);
                assert(other_samples.drop_last()[k] == other_samples[k]);
            }
        }
    }
}

/// A pixel is determined by the random source: where every function that the
/// renderer is handed gives one answer to each question, two renderings of a
/// pixel from one source are the same pixel and leave the same source.
pub proof fn pixel_is_determined<G, P, C, H, S, D, Q>(
    place: P,
    camera: C,
    hit: H,
    scatter: S,
    develop: D,
    quantize: Q,
    img_data: ImageData,
    i: u32,
    j: u32,
    source: G,
    pixel: Rgb8,
    after: G,
    other_pixel: Rgb8,
    other_after: G,
) where
    P: Fn(u32, u32, G) -> ((Scalar, Scalar), G),
    C: Fn(Scalar, Scalar, G) -> (Ray, G),
    H: Fn(Ray, Scalar, Scalar) -> Option<HitRecord>,
    S: Fn(Ray, HitRecord, G) -> (Option<(Color, Ray)>, G),
    D: Fn(Vec<Radiance>) -> Color,
    Q: Fn(Scalar) -> u8,

    requires
        repeatable(place, camera, hit, scatter, develop, quantize),
        rendered(place, camera, hit, scatter, develop, quantize, img_data, i, j, source, pixel, after),
        rendered(
            place,
            camera,
            hit,
            scatter,
            develop,
            quantize,
            img_data,
            i,
            j,
            source,
            other_pixel,
            other_after,
        ),
    ensures
        pixel == other_pixel,
        after == other_after,
{
    let (samples, colour) = choose|samples: Vec<Radiance>, colour: Color|
        {
            &&& samples@.len() == img_data.samples_per_pixel
            &&& sampled(place, camera, hit, scatter, i, j, img_data.max_depth, source, samples@, after)
            &&& #[trigger] develop.ensures((samples,), colour)
            &&& quantized(quantize, colour, pixel)
        };
    let (other_samples, other_colour) = choose|samples: Vec<Radiance>, colour: Color|
        {
            &&& samples@.len() == img_data.samples_per_pixel
            &&& sampled(
                place,
                camera,
                hit,
                scatter,
                i,
                j,
                img_data.max_depth,
                source,
                samples@,
                other_after,
            )
            &&& #[trigger] develop.ensures((samples,), colour)
            &&& quantized(quantize, colour, other_pixel)
        };
    samples_are_determined(
        place,
        camera,
        hit,
        scatter,
        i,
        j,
        img_data.max_depth,
        source,
        samples@,
        after,
        other_samples@,
        other_after,
    );
    assert(colour == other_colour);
    assert(pixel[0] == other_pixel[0]);
    assert(pixel[1] == other_pixel[1]);
    assert(pixel[2] == other_pixel[2]);
    assert(pixel =~= other_pixel);
}

/// A row of pixels is determined by the random source: where every function
/// that the renderer is handed gives one answer to each question, two
/// renderings of equally many pixels of a row from one source are the same
/// pixels and leave the same source.
pub proof fn row_is_determined<G, P, C, H, S, D, Q>(
    place: P,
    camera: C,
    hit: H,
    scatter: S,
    develop: D,
    quantize: Q,
    img_data: ImageData,
    first_column: u32,
    j: u32,
    source: G,
    row: Seq<Rgb8>,
    after: G,
    other_row: Seq<Rgb8>,
    other_after: G,
) where
    P: Fn(u32, u32, G) -> ((Scalar, Scalar), G),
    C: Fn(Scalar, Scalar, G) -> (Ray, G),
    H: Fn(Ray, Scalar, Scalar) -> Option<HitRecord>,
    S: Fn(Ray, HitRecord, G) -> (Option<(Color, Ray)>, G),
    D: Fn(Vec<Radiance>) -> Color,
    Q: Fn(Scalar) -> u8,

    requires
        repeatable(place, camera, hit, scatter, develop, quantize),
        row.len() == other_row.len(),
        row_rendered(
            place,
            camera,
            hit,
            scatter,
            develop,
            quantize,
            img_data,
            first_column,
            j,
            source,
            row,
            after,
        ),
        row_rendered(
            place,
            camera,
            hit,
            scatter,
            develop,
            quantize,
            img_data,
            first_column,
            j,
            source,
            other_row,
            other_after,
        ),
    ensures
        row == other_row,
        after == other_after,
    decreases row.len(),
{
    if row.len() == 0 {
        assert(row =~= other_row);
    } else {
        let column = (first_column + row.len() - 1) as u32;
        let before = choose|before: G|
            {
                &&& row_rendered(
                    place,
                    camera,
                    hit,
                    scatter,
                    develop,
                    quantize,
                    img_data,
                    first_column,
                    j,
                    source,
                    row.drop_last(),
                    before,
                )
                &&& #[trigger] rendered(
                    place,
                    camera,
                    hit,
                    scatter,
                    develop,
                    quantize,
                    img_data,
                    column,
                    j,
                    before,
                    row.last(),
                    after,
                )
            };
        let other_before = choose|before: G|
            {
                &&& row_rendered(
                    place,
                    camera,
                    hit,
                    scatter,
                    develop,
                    quantize,
                    img_data,
                    first_column,
                    j,
                    source,
                    other_row.drop_last(),
                    before,
                )
                &&& #[trigger] rendered(
                    place,
                    camera,
                    hit,
                    scatter,
                    develop,
                    quantize,
                    img_data,
                    column,
                    j,
                    before,
                    other_row.last(),
                    other_after,
                )
            };
        row_is_determined(
            place,
            camera,
            hit,
            scatter,
            develop,
            quantize,
            img_data,
            first_column,
            j,
            source,
            row.drop_last(),
            before,
            other_row.drop_last(),
            other_before,
        );
        pixel_is_determined(
            place,
            camera,
            hit,
            scatter,
            develop,
            quantize,
            img_data,
            column,
            j,
            before,
            row.last(),
            after,
            other_row.last(),
            other_after,
        );
        assert(row =~= row.drop_last().push(row.last()));
        assert(other_row =~= other_row.drop_last().push(other_row.last()));
    }
}

/// Rows of pixels are determined by the random source: where every function
/// that the renderer is handed gives one answer to each question, two
/// renderings of equally many rows from one source hold the same pixels and
/// leave the same source.
pub proof fn rows_are_determined<G, P, C, H, S, D, Q>(
    place: P,
    camera: C,
    hit: H,
    scatter: S,
    develop: D,
    quantize: Q,
    img_data: ImageData,
    x_range: Range<u32>,
    first_row: u32,
    source: G,
    rows: Seq<Vec<Rgb8>>,
    after: G,
    other_rows: Seq<Vec<Rgb8>>,
    other_after: G,
) where
    P: Fn(u32, u32, G) -> ((Scalar, Scalar), G),
    C: Fn(Scalar, Scalar, G) -> (Ray, G),
    H: Fn(Ray, Scalar, Scalar) -> Option<HitRecord>,
    S: Fn(Ray, HitRecord, G) -> (Option<(Color, Ray)>, G),
    D: Fn(Vec<Radiance>) -> Color,
    Q: Fn(Scalar) -> u8,

    requires
        repeatable(place, camera, hit, scatter, develop, quantize),
        rows.len() == other_rows.len(),
        rows_rendered(
            place,
            camera,
            hit,
            scatter,
            develop,
            quantize,
            img_data,
            x_range,
            first_row,
            source,
            rows,
            after,
        ),
        rows_rendered(
            place,
            camera,
            hit,
            scatter,
            develop,
            quantize,
            img_data,
            x_range,
            first_row,
            source,
            other_rows,
            other_after,
        ),
    ensures
        forall|r: int| 0 <= r < rows.len() ==> (#[trigger] rows[r])@ == other_rows[r]@,
        after == other_after,
    decreases rows.len(),
{
    if rows.len() > 0 {
        let j = (img_data.image_height - 1 - (first_row + rows.len() - 1)) as u32;
        let before = choose|before: G|
            {
                &&& rows_rendered(
                    place,
                    camera,
                    hit,
                    scatter,
                    develop,
                    quantize,
                    img_data,
                    x_range,
                    first_row,
                    source,
                    rows.drop_last(),
                    before,
                )
                &&& rows.last()@.len() == span(x_range)
                &&& #[trigger] row_rendered(
                    place,
                    camera,
                    hit,
                    scatter,
                    develop,
                    quantize,
                    img_data,
                    x_range.start,
                    j,
                    before,
                    rows.last()@,
                    after,
                )
            };
        let other_before = choose|before: G|
            {
                &&& rows_rendered(
                    place,
                    camera,
                    hit,
                    scatter,
                    develop,
                    quantize,
                    img_data,
                    x_range,
                    first_row,
                    source,
                    other_rows.drop_last(),
                    before,
                )
                &&& other_rows.last()@.len() == span(x_range)
                &&& #[trigger] row_rendered(
                    place,
                    camera,
                    hit,
                    scatter,
                    develop,
                    quantize,
                    img_data,
                    x_range.start,
                    j,
                    before,
                    other_rows.last()@,
                    other_after,
                )
            };
        rows_are_determined(
            place,
            camera,
            hit,
            scatter,
            develop,
            quantize,
            img_data,
            x_range,
            first_row,
            source,
            rows.drop_last(),
            before,
            other_rows.drop_last(),
            other_before,
        );
        row_is_determined(
            place,
            camera,
            hit,
            scatter,
            develop,
            quantize,
            img_data,
            x_range.start,
            j,
            before,
            rows.last()@,
            after,
            other_rows.last()@,
            other_after,
        );
        assert forall|r: int| 0 <= r < rows.len() implies (#[trigger] rows[r])@ == other_rows[r]@ by {
            if r < rows.len() - 1 {
                assert(rows.drop_last()[r] == rows[r]);
                assert(other_rows.drop_last()[r] == other_rows[r]);
            }
        }
    }
}

/// A block is determined by the random source: where every function that the
/// renderer is handed gives one answer to each question, two renderings of
/// the same columns and rows from one source are equal pixel for pixel and
/// leave the same source.
pub proof fn block_is_determined<G, P, C, H, S, D, Q>(
    place: P,
    camera: C,
    hit: H,
    scatter: S,
    develop: D,
    quantize: Q,
    img_data: ImageData,
    x_range: Range<u32>,
    y_range: Range<u32>,
    source: G,
    img: Vec<Vec<Rgb8>>,
    after: G,
    other_img: Vec<Vec<Rgb8>>,
    other_after: G,
) where
    P: Fn(u32, u32, G) -> ((Scalar, Scalar), G),
    C: Fn(Scalar, Scalar, G) -> (Ray, G),
    H: Fn(Ray, Scalar, Scalar) -> Option<HitRecord>,
    S: Fn(Ray, HitRecord, G) -> (Option<(Color, Ray)>, G),
    D: Fn(Vec<Radiance>) -> Color,
    Q: Fn(Scalar) -> u8,

    requires
        repeatable(place, camera, hit, scatter, develop, quantize),
        is_block(
            place,
            camera,
            hit,
            scatter,
            develop,
            quantize,
            img_data,
            x_range,
            y_range,
            source,
            img,
            after,
        ),
        is_block(
            place,
            camera,
            hit,
            scatter,
            develop,
            quantize,
            img_data,
            x_range,
            y_range,
            source,
            other_img,
            other_after,
        ),
    ensures
        img@.len() == other_img@.len(),
        forall|r: int| 0 <= r < img@.len() ==> (#[trigger] img@[r])@ == other_img@[r]@,
        after == other_after,
{
    rows_are_determined(
        place,
        camera,
        hit,
        scatter,
        develop,
        quantize,
        img_data,
        x_range,
        y_range.start,
        source,
        img@,
        after,
        other_img@,
        other_after,
    );
}

} // verus!
