//! The finished picture: the blocks of the render units, merged row by row
//! into one buffer of bytes.

use vstd::prelude::*;
use std::ops::Range;
use crate::scalar::Scalar;
use crate::vec3::Color;
use crate::ray::Ray;
use crate::hittable::HitRecord;
use crate::integrator::Radiance;
use crate::render::{
    block_holds_renderings, block_rows_span_the_columns, cut_into, is_block_of, is_rendering, span,
    ImageData, Rgb8,
};

verus! {

/// An `image::ImageBuffer` of `image::Rgb<u8>` pixels over a `Vec<u8>`: the
/// picture while it is put together.
#[verifier::external_body]
pub struct Canvas {
    image: image::ImageBuffer<image::Rgb<u8>, Vec<u8>>,
}

/// The pixels of a canvas, row by row from the top, each row from the left.
pub uninterp spec fn canvas_rows(canvas: Canvas) -> Seq<Seq<Rgb8>>;

/// The width that a canvas was made with.
pub uninterp spec fn canvas_width(canvas: Canvas) -> nat;

/// Where the channel `c` of the pixel at column `x` of row `y` lies in the
/// bytes of a picture `width` wide.
pub open spec fn byte_index(width: int, x: int, y: int, c: int) -> int {
    (y * width + x) * 3 + c
}

/// Whether a canvas is `width` wide and `height` high.
pub open spec fn has_size(canvas: Canvas, width: nat, height: nat) -> bool {
    &&& canvas_width(canvas) == width
    &&& canvas_rows(canvas).len() == height
    &&& forall|y: int| 0 <= y < height ==> (#[trigger] canvas_rows(canvas)[y]).len() == width
}

/// Whether the bytes of a picture `width` wide and `height` high can be
/// counted and held: three times the width is a machine size, and three
/// bytes for each pixel fit a vector.
pub open spec fn can_hold(width: u32, height: u32) -> bool {
    &&& 3 * width <= usize::MAX
    &&& 3 * width * height <= isize::MAX
}

/// `image::ImageBuffer::new`: a buffer of the given size whose every byte is
/// zero. The outside function counts the bytes in two steps, three times the
/// width and then times the height, and panics where a step leaves the
/// machine sizes or the bytes do not fit a vector; `requires` leaves both
/// out.
#[verifier::external_body]
fn blank(width: u32, height: u32) -> (canvas: Canvas)
    requires
        can_hold(width, height),
    ensures
        has_size(canvas, width as nat, height as nat),
        forall|y: int, x: int, c: int|
            0 <= y < height && 0 <= x < width && 0 <= c < 3 ==> (#[trigger] canvas_rows(
                canvas,
            )[y][x]@[c]) == 0,
{
    Canvas { image: image::ImageBuffer::new(width, height) }
}

/// `image::ImageBuffer::put_pixel`: the pixel at column `x` of row `y`
/// becomes `pixel`, and nothing else changes. The outside function panics
/// where `(x, y)` lies outside the image, which `requires` leaves out.
#[verifier::external_body]
fn put_pixel(canvas: &mut Canvas, x: u32, y: u32, pixel: Rgb8)
    requires
        y < canvas_rows(*old(canvas)).len(),
        x < canvas_rows(*old(canvas))[y as int].len(),
    ensures
        canvas_width(*final(canvas)) == canvas_width(*old(canvas)),
        canvas_rows(*final(canvas)) == canvas_rows(*old(canvas)).update(
            y as int,
            canvas_rows(*old(canvas))[y as int].update(x as int, pixel),
        ),
{
    canvas.image.put_pixel(x, y, image::Rgb(pixel));
}

/// `image::ImageBuffer::into_raw`: the bytes of the buffer, three for each
/// pixel, the pixels of a row side by side and the rows one after another.
#[verifier::external_body]
fn into_raw(canvas: Canvas) -> (bytes: Vec<u8>)
    requires
        has_size(canvas, canvas_width(canvas), canvas_rows(canvas).len()),
    ensures
        bytes@.len() == 3 * canvas_width(canvas) * canvas_rows(canvas).len(),
        forall|y: int, x: int, c: int|
            0 <= y < canvas_rows(canvas).len() && 0 <= x < canvas_width(canvas) && 0 <= c < 3
                ==> bytes@[#[trigger] byte_index(canvas_width(canvas) as int, x, y, c)]
                == canvas_rows(canvas)[y][x]@[c],
{
    canvas.image.into_raw()
}

/// The rows of one block.
pub open spec fn block_rows(block: Vec<Vec<Rgb8>>) -> Seq<Seq<Rgb8>> {
    Seq::new(block@.len(), |r: int| block@[r]@)
}

/// The rows of all blocks, one block after the other.
pub open spec fn stacked(blocks: Seq<Vec<Vec<Rgb8>>>) -> Seq<Seq<Rgb8>>
    decreases blocks.len(),
{
    if blocks.len() == 0 {
        Seq::empty()
    } else {
        stacked(blocks.drop_last()) + block_rows(blocks.last())
    }
}

/// Whether `rows` fit a picture `width` wide and `height` high.
pub open spec fn fits(rows: Seq<Seq<Rgb8>>, width: nat, height: nat) -> bool {
    &&& rows.len() <= height
    &&& forall|y: int| 0 <= y < rows.len() ==> (#[trigger] rows[y]).len() <= width
}

/// The channel `c` of the pixel at column `x` of row `y` of a picture that
/// shows `rows` from its top left corner and is black elsewhere.
pub open spec fn channel(rows: Seq<Seq<Rgb8>>, x: int, y: int, c: int) -> u8 {
    if 0 <= y < rows.len() && 0 <= x < rows[y].len() {
        rows[y][x]@[c]
    } else {
        0
    }
}

/// Whether the canvas shows `rows` from its top left corner and is black
/// elsewhere.
spec fn shows(canvas: Canvas, rows: Seq<Seq<Rgb8>>, width: nat, height: nat) -> bool {
    &&& has_size(canvas, width, height)
    &&& forall|y: int, x: int, c: int|
        0 <= y < height && 0 <= x < width && 0 <= c < 3 ==> (#[trigger] canvas_rows(
            canvas,
        )[y][x]@[c]) == channel(rows, x, y, c)
}

/// The row `r` of block `b` is a row of the stack, after all rows of the
/// blocks before `b` and the rows of `b` before `r`.
proof fn lemma_row_of_stack(blocks: Seq<Vec<Vec<Rgb8>>>, b: int, r: int)
    requires
        0 <= b < blocks.len(),
        0 <= r < blocks[b]@.len(),
    ensures
        stacked(blocks.take(b)).len() + r < stacked(blocks).len(),
        stacked(blocks)[stacked(blocks.take(b)).len() + r] == blocks[b]@[r]@,
    decreases blocks.len(),
{
    if b < blocks.len() - 1 {
        let front = blocks.drop_last();
        assert(blocks.take(b) =~= front.take(b));
        lemma_row_of_stack(front, b, r);
    }
}

/// The stack of the first `b + 1` blocks is that of the first `b` with the
/// rows of block `b` behind.
proof fn lemma_stack_grows(blocks: Seq<Vec<Vec<Rgb8>>>, b: int)
    requires
        0 <= b < blocks.len(),
    ensures
        stacked(blocks.take(b + 1)) == stacked(blocks.take(b)) + block_rows(blocks[b]),
{
    assert(blocks.take(b + 1).drop_last() =~= blocks.take(b));
}

/// The rows of the first `k` blocks are as many as lie above unit `k`.
proof fn lemma_rows_above_unit(
    units: Seq<Range<u32>>,
    blocks: Seq<Vec<Vec<Rgb8>>>,
    image_height: u32,
    step: u32,
    k: int,
)
    requires
        cut_into(units, image_height, step),
        blocks.len() == units.len(),
        forall|i: int| 0 <= i < units.len() ==> (#[trigger] blocks[i])@.len() == span(units[i]),
        0 <= k <= units.len(),
    ensures
        stacked(blocks.take(k)).len() == if k < units.len() {
            units[k].start as int
        } else {
            image_height as int
        },
    decreases k,
{
    if k > 0 {
        lemma_rows_above_unit(units, blocks, image_height, step, k - 1);
        lemma_stack_grows(blocks, k - 1);
    }
}

/// Every row of a stack is as wide as the rows of its blocks.
proof fn lemma_stack_width(blocks: Seq<Vec<Vec<Rgb8>>>, width: nat)
    requires
        forall|i: int, r: int|
            0 <= i < blocks.len() && 0 <= r < blocks[i]@.len() ==> (#[trigger] blocks[i]@[r])@.len()
                == width,
    ensures
        forall|y: int| 0 <= y < stacked(blocks).len() ==> (#[trigger] stacked(blocks)[y]).len()
            == width,
    decreases blocks.len(),
{
    if blocks.len() > 0 {
        let front = blocks.drop_last();
        lemma_stack_width(front, width);
        assert forall|y: int| 0 <= y < stacked(blocks).len() implies (#[trigger] stacked(
            blocks,
        )[y]).len() == width by {
            let above = stacked(front).len();
            if y >= above {
                assert(stacked(blocks)[y] == blocks.last()@[y - above]@);
            }
        }
    }
}

/// The blocks of the units of a picture fill it: where `units` cut the rows
/// of the picture into groups and each block holds the rows of its unit, each
/// `width` wide, the stack of the blocks has the picture's height and fits
/// it, and row `r` of block `k` is the row of the picture that lies `r` below
/// the first row of unit `k`.
pub proof fn blocks_of_units_fill_the_picture(
    units: Seq<Range<u32>>,
    blocks: Seq<Vec<Vec<Rgb8>>>,
    width: nat,
    image_height: u32,
    step: u32,
)
    requires
        cut_into(units, image_height, step),
        blocks.len() == units.len(),
        forall|i: int| 0 <= i < units.len() ==> (#[trigger] blocks[i])@.len() == span(units[i]),
        forall|i: int, r: int|
            0 <= i < blocks.len() && 0 <= r < blocks[i]@.len() ==> (#[trigger] blocks[i]@[r])@.len()
                == width,
    ensures
        stacked(blocks).len() == image_height,
        fits(stacked(blocks), width, image_height as nat),
        forall|k: int, r: int|
            0 <= k < units.len() && 0 <= r < span(units[k]) ==> stacked(blocks)[units[k].start
                + r] == (#[trigger] blocks[k]@[r])@,
{
    lemma_rows_above_unit(units, blocks, image_height, step, units.len() as int);
    assert(blocks.take(blocks.len() as int) =~= blocks);
    lemma_stack_width(blocks, width);
    assert forall|k: int, r: int| 0 <= k < units.len() && 0 <= r < span(units[k]) implies stacked(
        blocks,
    )[units[k].start + r] == (#[trigger] blocks[k]@[r])@ by {
        lemma_rows_above_unit(units, blocks, image_height, step, k);
        lemma_row_of_stack(blocks, k, r);
    }
}

/// The unit that holds row `y`, looked for from unit `k` on.
proof fn lemma_unit_of_row(
    units: Seq<Range<u32>>,
    image_height: u32,
    step: u32,
    y: int,
    k: int,
) -> (found: int)
    requires
        cut_into(units, image_height, step),
        0 <= k < units.len(),
        units[k].start <= y < image_height,
    ensures
        0 <= found < units.len(),
        units[found].start <= y < units[found].end,
    decreases units.len() - k,
{
    if y < units[k].end {
        k
    } else {
        lemma_unit_of_row(units, image_height, step, y, k + 1)
    }
}

/// The picture shows a rendering of every pixel: where `units` cut the rows
/// of the picture into groups and each block is that of its unit over the
/// full width, the stack of the blocks fits the picture, and its pixel at
/// column `x` of row `y` is a rendering of that column in the row that lies
/// `image_height - 1 - y` above the bottom.
pub proof fn picture_shows_every_pixel<G, P, C, H, S, D, Q>(
    place: P,
    camera: C,
    hit: H,
    scatter: S,
    develop: D,
    quantize: Q,
    img_data: ImageData,
    step: u32,
    columns: Range<u32>,
    units: Seq<Range<u32>>,
    blocks: Seq<Vec<Vec<Rgb8>>>,
    x: int,
    y: int,
) where
    P: Fn(u32, u32, G) -> ((Scalar, Scalar), G),
    C: Fn(Scalar, Scalar, G) -> (Ray, G),
    H: Fn(Ray, Scalar, Scalar) -> Option<HitRecord>,
    S: Fn(Ray, HitRecord, G) -> (Option<(Color, Ray)>, G),
    D: Fn(Vec<Radiance>) -> Color,
    Q: Fn(Scalar) -> u8,

    requires
        columns.start == 0,
        columns.end == img_data.image_width,
        cut_into(units, img_data.image_height, step),
        blocks.len() == units.len(),
        forall|k: int|
            0 <= k < units.len() ==> is_block_of(
                place,
                camera,
                hit,
                scatter,
                develop,
                quantize,
                img_data,
                columns,
                units[k],
                #[trigger] blocks[k],
            ),
        0 <= x < img_data.image_width,
        0 <= y < img_data.image_height,
    ensures
        fits(stacked(blocks), img_data.image_width as nat, img_data.image_height as nat),
        stacked(blocks).len() == img_data.image_height,
        stacked(blocks)[y].len() == img_data.image_width,
        is_rendering(
            place,
            camera,
            hit,
            scatter,
            develop,
            quantize,
            img_data,
            x as u32,
            (img_data.image_height - 1 - y) as u32,
            stacked(blocks)[y][x],
        ),
{
    let width = img_data.image_width as nat;
    assert forall|i: int| 0 <= i < units.len() implies (#[trigger] blocks[i])@.len() == span(
        units[i],
    ) by {
        assert(is_block_of(
            place,
            camera,
            hit,
            scatter,
            develop,
            quantize,
            img_data,
            columns,
            units[i],
            blocks[i],
        ));
    }
    assert forall|i: int, r: int| 0 <= i < blocks.len() && 0 <= r < blocks[i]@.len() implies (
    #[trigger] blocks[i]@[r])@.len() == width by {
        block_rows_span_the_columns(
            place,
            camera,
            hit,
            scatter,
            develop,
            quantize,
            img_data,
            columns,
            units[i],
            blocks[i],
            r,
        );
    }
    blocks_of_units_fill_the_picture(units, blocks, width, img_data.image_height, step);
    let k = lemma_unit_of_row(units, img_data.image_height, step, y, 0);
    let r = y - units[k].start;
    block_holds_renderings(
        place,
        camera,
        hit,
        scatter,
        develop,
        quantize,
        img_data,
        columns,
        units[k],
        blocks[k],
        r,
        x,
    );
    assert(stacked(blocks)[units[k].start + r] == blocks[k]@[r]@);
    assert(blocks[k]@[r]@[x] == stacked(blocks)[y][x]);
}

/// Merges the blocks of the render units into the bytes of the picture.
///
/// The rows of the blocks, taken block after block, become the rows of the
/// picture from the top down, each from the left edge. The result holds three
/// bytes for each pixel of a picture `width` wide and `height` high, row
/// after row from the top: the channels of the pixels that the blocks give,
/// and zero for a pixel that no block reaches.
pub fn assemble(width: u32, height: u32, blocks: &Vec<Vec<Vec<Rgb8>>>) -> (bytes: Vec<u8>)
    requires
        can_hold(width, height),
        fits(stacked(blocks@), width as nat, height as nat),
    ensures
        bytes@.len() == 3 * width * height,
        forall|y: int, x: int, c: int|
            0 <= y < height && 0 <= x < width && 0 <= c < 3 ==> bytes@[#[trigger] byte_index(
                width as int,
                x,
                y,
                c,
            )] == channel(stacked(blocks@), x, y, c),
{
    let mut canvas = blank(width, height);
    let mut y: u32 = 0;
    let mut b: usize = 0;
    while b < blocks.len()
        invariant
            b <= blocks@.len(),
            fits(stacked(blocks@), width as nat, height as nat),
            y == stacked(blocks@.take(b as int)).len(),
            shows(canvas, stacked(blocks@.take(b as int)), width as nat, height as nat),
        decreases blocks@.len() - b,
    {
        let block = &blocks[b];
        let ghost above = stacked(blocks@.take(b as int));
        let mut r: usize = 0;
        while r < block.len()
            invariant
                b < blocks@.len(),
                block == blocks@[b as int],
                above == stacked(blocks@.take(b as int)),
                fits(stacked(blocks@), width as nat, height as nat),
                r <= block@.len(),
                y == above.len() + r,
                shows(
                    canvas,
                    above + block_rows(*block).take(r as int),
                    width as nat,
                    height as nat,
                ),
            decreases block@.len() - r,
        {
            let row = &block[r];
            let ghost done = above + block_rows(*block).take(r as int);
            proof {
                lemma_row_of_stack(blocks@, b as int, r as int);
            }
            let mut k: usize = 0;
            while k < row.len()
                invariant
                    row@.len() <= width,
                    y < height,
                    y == done.len(),
                    k <= row@.len(),
                    shows(canvas, done.push(row@.take(k as int)), width as nat, height as nat),
                decreases row@.len() - k,
            {
                let pixel = row[k];
                put_pixel(&mut canvas, k as u32, y, pixel);
                k = k + 1;
            }
            y = y + 1;
            r = r + 1;
        }
        proof {
            lemma_stack_grows(blocks@, b as int);
        }
        b = b + 1;
    }
    proof {
        assert(blocks@.take(blocks@.len() as int) =~= blocks@);
    }
    into_raw(canvas)
}

} // verus!
