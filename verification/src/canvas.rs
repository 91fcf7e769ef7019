//! The pixel buffer: an `image::RgbImage` behind `Canvas`, seen by the
//! contracts as a `Bitmap`.

use vstd::prelude::*;
use image::Rgb;
use image::RgbImage;
use crate::color::Color;

verus! {

/// A pixel buffer of 8-bit RGB triples, stored row by row.
///
/// The buffer itself is an `image::RgbImage`; nothing is proved of it. What
/// the contracts know of it is what the functions below state over
/// `canvas_samples` and `canvas_extent`.
#[verifier::external_body]
pub struct Canvas {
    img: RgbImage,
}

/// The samples that the buffer holds, in storage order.
pub uninterp spec fn canvas_samples(canvas: Canvas) -> Seq<u8>;

/// The width and the height that the buffer was made with.
pub uninterp spec fn canvas_extent(canvas: Canvas) -> (nat, nat);

/// What a canvas is to the contracts: its extent and its samples.
pub struct Bitmap {
    pub width: nat,
    pub height: nat,
    pub samples: Seq<u8>,
}

impl Bitmap {
    /// The buffer holds three samples for each pixel and nothing more.
    pub open spec fn wf(self) -> bool {
        self.samples.len() == 3 * (self.width * self.height)
    }

    pub open spec fn in_bounds(self, x: int, y: int) -> bool {
        0 <= x < self.width && 0 <= y < self.height
    }

    /// Where the red sample of pixel `(x, y)` stands.
    pub open spec fn offset(self, x: int, y: int) -> int {
        3 * (y * self.width + x)
    }

    /// The colour of pixel `(x, y)`.
    pub open spec fn pixel(self, x: int, y: int) -> Color {
        Color {
            r: self.samples[self.offset(x, y)],
            g: self.samples[self.offset(x, y) + 1],
            b: self.samples[self.offset(x, y) + 2],
        }
    }

    /// `self` and `other` have the same extent and the same number of samples.
    pub open spec fn same_shape(self, other: Bitmap) -> bool {
        &&& self.width == other.width
        &&& self.height == other.height
        &&& self.samples.len() == other.samples.len()
    }
}

impl View for Canvas {
    type V = Bitmap;

    open spec fn view(&self) -> Bitmap {
        Bitmap {
            width: canvas_extent(*self).0,
            height: canvas_extent(*self).1,
            samples: canvas_samples(*self),
        }
    }
}

/// `RgbImage::new`: a buffer of the given extent whose samples are all zero,
/// three for each pixel. It counts the samples of one row first and then
/// those of all rows, and panics where either count overflows or the
/// samples do not fit a vector; `requires` leaves those extents out.
#[verifier::external_body]
fn raw_new(width: u32, height: u32) -> (canvas: Canvas)
    requires
        3 * width <= usize::MAX,
        3 * (width * height) <= isize::MAX,
    ensures
        canvas_extent(canvas) == (width as nat, height as nat),
        canvas_samples(canvas) == Seq::new((3 * (width * height)) as nat, |i: int| 0u8),
{
    Canvas { img: RgbImage::new(width, height) }
}

/// `ImageBuffer::width`: the width the buffer was made with.
#[verifier::external_body]
fn raw_width(canvas: &Canvas) -> (w: u32)
    ensures
        w == canvas_extent(*canvas).0,
{
    canvas.img.width()
}

/// `ImageBuffer::height`: the height the buffer was made with.
#[verifier::external_body]
fn raw_height(canvas: &Canvas) -> (h: u32)
    ensures
        h == canvas_extent(*canvas).1,
{
    canvas.img.height()
}

/// `ImageBuffer::put_pixel`: for a position inside the image, the pixel's
/// three samples lie inside the container at its row-major place; the call
/// stores the three channels there and leaves everything else as it was.
#[verifier::external_body]
fn raw_put_pixel(canvas: &mut Canvas, x: u32, y: u32, color: Color)
    requires
        x < canvas_extent(*old(canvas)).0,
        y < canvas_extent(*old(canvas)).1,
    ensures
        canvas_extent(*final(canvas)) == canvas_extent(*old(canvas)),
        3 * (y * canvas_extent(*old(canvas)).0 + x) + 3 <= canvas_samples(*old(canvas)).len(),
        canvas_samples(*final(canvas)) == canvas_samples(*old(canvas)).update(
            3 * (y * canvas_extent(*old(canvas)).0 + x),
            color.r,
        ).update(3 * (y * canvas_extent(*old(canvas)).0 + x) + 1, color.g).update(
            3 * (y * canvas_extent(*old(canvas)).0 + x) + 2,
            color.b,
        ),
{
    canvas.img.put_pixel(x, y, Rgb([color.r, color.g, color.b]));
}

/// `ImageBuffer::into_raw`: hands out the sample container as it is.
#[verifier::external_body]
fn raw_into_samples(canvas: Canvas) -> (raw: Vec<u8>)
    ensures
        raw@ == canvas_samples(canvas),
{
    canvas.img.into_raw()
}

/// Two different pixels of one row-major grid stand at different places.
pub proof fn lemma_offsets_apart(width: nat, x: int, y: int, u: int, v: int)
    requires
        0 <= x < width,
        0 <= u < width,
        0 <= y,
        0 <= v,
        (x, y) != (u, v),
    ensures
        y * width + x != v * width + u,
{
    if y < v {
        assert((y + 1) * width <= v * width) by (nonlinear_arith)
            requires
                y + 1 <= v,
                width >= 0,
        ;
        assert((y + 1) * width == y * width + width) by (nonlinear_arith);
    } else if v < y {
        assert((v + 1) * width <= y * width) by (nonlinear_arith)
            requires
                v + 1 <= y,
                width >= 0,
        ;
        assert((v + 1) * width == v * width + width) by (nonlinear_arith);
    }
}

/// Every pixel inside the extent has its three samples inside a buffer
/// that holds three samples for each pixel.
pub proof fn lemma_offset_in_range(width: nat, height: nat, x: int, y: int)
    requires
        0 <= x < width,
        0 <= y < height,
    ensures
        0 <= y * width + x < width * height,
{
    assert(y * width >= 0) by (nonlinear_arith)
        requires
            y >= 0,
            width >= 0,
    ;
    assert((y + 1) * width <= height * width) by (nonlinear_arith)
        requires
            y + 1 <= height,
            width >= 0,
    ;
    assert((y + 1) * width == y * width + width) by (nonlinear_arith);
    assert(height * width == width * height) by (nonlinear_arith);
}

impl Canvas {
    /// The width in pixels.
    pub fn width(&self) -> (w: u32)
        ensures
            w == self@.width,
    {
        raw_width(self)
    }

    /// The height in pixels.
    pub fn height(&self) -> (h: u32)
        ensures
            h == self@.height,
    {
        raw_height(self)
    }

    /// Sets the pixel at `(x, y)` to `color`; every other pixel keeps its
    /// colour.
    pub fn put(&mut self, x: u32, y: u32, color: Color)
        requires
            old(self)@.wf(),
            old(self)@.in_bounds(x as int, y as int),
        ensures
            final(self)@.wf(),
            final(self)@.same_shape(old(self)@),
            forall|u: int, v: int|
                old(self)@.in_bounds(u, v) ==> #[trigger] final(self)@.pixel(u, v) == if u == x
                    && v == y {
                    color
                } else {
                    old(self)@.pixel(u, v)
                },
    {
        raw_put_pixel(self, x, y, color);
        proof {
            let before = old(self)@;
            let after = self@;
            assert forall|u: int, v: int| before.in_bounds(u, v) implies #[trigger] after.pixel(
                u,
                v,
            ) == if u == x && v == y {
                color
            } else {
                before.pixel(u, v)
            } by {
                lemma_offset_in_range(before.width, before.height, u, v);
                lemma_offset_in_range(before.width, before.height, x as int, y as int);
                if (u, v) != (x as int, y as int) {
                    lemma_offsets_apart(before.width, u, v, x as int, y as int);
                }
            }
        }
    }

    /// The extent can be had: the samples of one row can be counted, and
    /// the samples of all rows fit a vector.
    pub open spec fn fits(width: u32, height: u32) -> bool {
        3 * width <= usize::MAX && 3 * (width * height) <= isize::MAX
    }

    /// A canvas of the given extent with every pixel set to `color`, or
    /// `None` where the extent cannot be had.
    pub fn filled(width: u32, height: u32, color: Color) -> (made: Option<Canvas>)
        ensures
            made.is_some() <==> Canvas::fits(width, height),
            made matches Some(canvas) ==> {
                &&& canvas@.wf()
                &&& canvas@.width == width
                &&& canvas@.height == height
                &&& forall|x: int, y: int|
                    canvas@.in_bounds(x, y) ==> #[trigger] canvas@.pixel(x, y) == color
            },
    {
        assert(width * height <= 0xffff_ffff * 0xffff_ffff) by (nonlinear_arith)
            requires
                0 <= width <= 0xffff_ffff,
                0 <= height <= 0xffff_ffff,
        ;
        let row: u128 = 3 * (width as u128);
        let need: u128 = 3 * (width as u128 * height as u128);
        if row > usize::MAX as u128 || need > isize::MAX as u128 {
            return None;
        }
        let mut canvas = raw_new(width, height);
        let mut y: u32 = 0;
        while y < height
            invariant
                y <= height,
                canvas@.wf(),
                canvas@.width == width,
                canvas@.height == height,
                forall|u: int, v: int|
                    0 <= u < width && 0 <= v < y ==> #[trigger] canvas@.pixel(u, v) == color,
            decreases height - y,
        {
            let mut x: u32 = 0;
            while x < width
                invariant
                    x <= width,
                    y < height,
                    canvas@.wf(),
                    canvas@.width == width,
                    canvas@.height == height,
                    forall|u: int, v: int|
                        0 <= u < width && 0 <= v < y ==> #[trigger] canvas@.pixel(u, v) == color,
                    forall|u: int| 0 <= u < x ==> #[trigger] canvas@.pixel(u, y as int) == color,
                decreases width - x,
            {
                canvas.put(x, y, color);
                x = x + 1;
            }
            y = y + 1;
        }
        Some(canvas)
    }

    /// Gives up the canvas for its samples: red, green and blue of each
    /// pixel, row by row.
    pub fn into_raw(self) -> (raw: Vec<u8>)
        ensures
            raw@ == self@.samples,
    {
        raw_into_samples(self)
    }
}

} // verus!
