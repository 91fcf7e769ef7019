//! The viewport: which window of the normalized plane is seen, and where a
//! normalized coordinate falls on the pixel axes.

use vstd::prelude::*;
use crate::geometry::ceil_div;
use crate::geometry::floor_div;
use crate::geometry::Coord;
use crate::geometry::Fraction;
use crate::geometry::Rect;
use crate::geometry::LIMIT;

verus! {

/// A zoom factor, `num / den`. The window seen is `den / num` wide.
#[derive(Clone, Copy, Debug, PartialEq, Eq, Structural)]
pub struct Zoom {
    pub num: u32,
    pub den: u32,
}

impl Zoom {
    /// The factor is strictly positive.
    pub open spec fn wf(self) -> bool {
        self.num >= 1 && self.den >= 1
    }
}

/// Which point of the normalized plane stays in place as the zoom changes.
#[derive(Clone, Copy, Debug, PartialEq, Eq, Structural)]
pub enum Anchor {
    /// The window's top-left corner stays at `(0, 0)`.
    TopLeft,
    /// The window's centre stays at the camera, `(x / denom, y / denom)`.
    Center { x: i64, y: i64, denom: u64 },
}

/// The window of the normalized plane that is seen, and the pixel extent it
/// is mapped to. The window's top-left corner is at
/// `(origin_x / unit, origin_y / unit)`; it is `view_size / unit` wide and
/// high.
#[derive(Clone, Copy, Debug, PartialEq, Eq, Structural)]
pub struct Viewport {
    pub origin_x: i64,
    pub origin_y: i64,
    pub view_size: u64,
    pub unit: u64,
    pub pixel_width: u32,
    pub pixel_height: u32,
}

impl Viewport {
    /// The window has a positive size, and every part is within `LIMIT`.
    pub open spec fn wf(self) -> bool {
        &&& 1 <= self.view_size <= LIMIT
        &&& 1 <= self.unit <= LIMIT
        &&& -LIMIT <= self.origin_x <= LIMIT
        &&& -LIMIT <= self.origin_y <= LIMIT
    }

    /// The common denominator on which a window for `zoom` round `anchor`
    /// is written.
    pub open spec fn unit_for(zoom: Zoom, anchor: Anchor) -> int {
        match anchor {
            Anchor::TopLeft => zoom.num as int,
            Anchor::Center { x, y, denom } => 2 * zoom.num * denom,
        }
    }

    /// The window's size on that denominator: `1 / zoom`.
    pub open spec fn view_size_for(zoom: Zoom, anchor: Anchor) -> int {
        match anchor {
            Anchor::TopLeft => zoom.den as int,
            Anchor::Center { x, y, denom } => 2 * zoom.den * denom,
        }
    }

    /// The window's left edge on that denominator: `0`, or the camera less
    /// half the window.
    pub open spec fn origin_x_for(zoom: Zoom, anchor: Anchor) -> int {
        match anchor {
            Anchor::TopLeft => 0,
            Anchor::Center { x, y, denom } => 2 * zoom.num * x - zoom.den * denom,
        }
    }

    /// The window's top edge on that denominator.
    pub open spec fn origin_y_for(zoom: Zoom, anchor: Anchor) -> int {
        match anchor {
            Anchor::TopLeft => 0,
            Anchor::Center { x, y, denom } => 2 * zoom.num * y - zoom.den * denom,
        }
    }

    /// The zoom is positive, and the window for it can be written within
    /// `LIMIT`.
    pub open spec fn constructible(zoom: Zoom, anchor: Anchor) -> bool {
        &&& zoom.wf()
        &&& 1 <= Self::unit_for(zoom, anchor) <= LIMIT
        &&& 1 <= Self::view_size_for(zoom, anchor) <= LIMIT
        &&& -LIMIT <= Self::origin_x_for(zoom, anchor) <= LIMIT
        &&& -LIMIT <= Self::origin_y_for(zoom, anchor) <= LIMIT
    }

    /// The viewport for a pixel extent, a zoom and an anchor.
    pub open spec fn spec_new(width: u32, height: u32, zoom: Zoom, anchor: Anchor) -> Viewport {
        Viewport {
            origin_x: Self::origin_x_for(zoom, anchor) as i64,
            origin_y: Self::origin_y_for(zoom, anchor) as i64,
            view_size: Self::view_size_for(zoom, anchor) as u64,
            unit: Self::unit_for(zoom, anchor) as u64,
            pixel_width: width,
            pixel_height: height,
        }
    }

    /// The viewport that shows a window `1 / zoom` wide, placed by `anchor`,
    /// on `width` by `height` pixels; `None` where the zoom is not positive
    /// or the window cannot be written within `LIMIT`.
    pub fn new(width: u32, height: u32, zoom: Zoom, anchor: Anchor) -> (made: Option<Viewport>)
        ensures
            made.is_some() <==> Self::constructible(zoom, anchor),
            made matches Some(view) ==> view == Self::spec_new(width, height, zoom, anchor)
                && view.wf(),
    {
        if zoom.num == 0 || zoom.den == 0 {
            return None;
        }
        let limit: i128 = LIMIT as i128;
        let num: i128 = zoom.num as i128;
        let den: i128 = zoom.den as i128;
        match anchor {
            Anchor::TopLeft => Some(
                Viewport {
                    origin_x: 0,
                    origin_y: 0,
                    view_size: zoom.den as u64,
                    unit: zoom.num as u64,
                    pixel_width: width,
                    pixel_height: height,
                },
            ),
            Anchor::Center { x, y, denom } => {
                let cd: i128 = denom as i128;
                assert(2 * num * cd <= 2 * 0xffff_ffff * 0xffff_ffff_ffff_ffff) by (nonlinear_arith)
                    requires
                        0 <= num <= 0xffff_ffff,
                        0 <= cd <= 0xffff_ffff_ffff_ffff,
                ;
                assert(2 * den * cd <= 2 * 0xffff_ffff * 0xffff_ffff_ffff_ffff) by (nonlinear_arith)
                    requires
                        0 <= den <= 0xffff_ffff,
                        0 <= cd <= 0xffff_ffff_ffff_ffff,
                ;
                assert(den * cd <= 0xffff_ffff * 0xffff_ffff_ffff_ffff) by (nonlinear_arith)
                    requires
                        0 <= den <= 0xffff_ffff,
                        0 <= cd <= 0xffff_ffff_ffff_ffff,
                ;
                assert(-0x2_0000_0000 * 0x8000_0000_0000_0000 <= 2 * num * x <= 0x2_0000_0000
                    * 0x8000_0000_0000_0000) by (nonlinear_arith)
                    requires
                        0 <= num <= 0xffff_ffff,
                        -0x8000_0000_0000_0000 <= x <= 0x8000_0000_0000_0000,
                ;
                assert(-0x2_0000_0000 * 0x8000_0000_0000_0000 <= 2 * num * y <= 0x2_0000_0000
                    * 0x8000_0000_0000_0000) by (nonlinear_arith)
                    requires
                        0 <= num <= 0xffff_ffff,
                        -0x8000_0000_0000_0000 <= y <= 0x8000_0000_0000_0000,
                ;
                let unit: i128 = 2 * num * cd;
                let view_size: i128 = 2 * den * cd;
                let origin_x: i128 = 2 * num * (x as i128) - den * cd;
                let origin_y: i128 = 2 * num * (y as i128) - den * cd;
                if 1 <= unit && unit <= limit && 1 <= view_size && view_size <= limit && -limit
                    <= origin_x && origin_x <= limit && -limit <= origin_y && origin_y <= limit {
                    Some(
                        Viewport {
                            origin_x: origin_x as i64,
                            origin_y: origin_y as i64,
                            view_size: view_size as u64,
                            unit: unit as u64,
                            pixel_width: width,
                            pixel_height: height,
                        },
                    )
                } else {
                    None
                }
            },
        }
    }

    /// The numerator of the pixel column of `value`:
    /// `(value - origin_x) / view_size * pixel_width`, over `map_den(value)`.
    pub open spec fn map_x_num(self, value: Coord) -> int {
        (value.num * self.unit - self.origin_x * value.den) * self.pixel_width
    }

    /// The numerator of the pixel row of `value`:
    /// `(value - origin_y) / view_size * pixel_height`, over `map_den(value)`.
    pub open spec fn map_y_num(self, value: Coord) -> int {
        (value.num * self.unit - self.origin_y * value.den) * self.pixel_height
    }

    /// The denominator of the pixel position of `value`, on either axis.
    pub open spec fn map_den(self, value: Coord) -> int {
        self.view_size * value.den
    }

    /// Within the limits every pixel position can be written in 128 bits.
    pub proof fn lemma_map_in_range(self, value: Coord, extent: u32)
        requires
            self.wf(),
            value.wf(),
        ensures
            -0x4000_0000_0000 * 0x4000_0000_0000 * 2 <= value.num * self.unit <= 0x4000_0000_0000
                * 0x4000_0000_0000 * 2,
            -0x4000_0000_0000 * 0x4000_0000_0000 <= self.origin_x * value.den <= 0x4000_0000_0000
                * 0x4000_0000_0000,
            -0x4000_0000_0000 * 0x4000_0000_0000 <= self.origin_y * value.den <= 0x4000_0000_0000
                * 0x4000_0000_0000,
            -0x4000_0000_0000 * 0x4000_0000_0000 * 3 * 0x1_0000_0000 <= (value.num * self.unit
                - self.origin_x * value.den) * extent <= 0x4000_0000_0000 * 0x4000_0000_0000 * 3
                * 0x1_0000_0000,
            -0x4000_0000_0000 * 0x4000_0000_0000 * 3 * 0x1_0000_0000 <= (value.num * self.unit
                - self.origin_y * value.den) * extent <= 0x4000_0000_0000 * 0x4000_0000_0000 * 3
                * 0x1_0000_0000,
            1 <= self.view_size * value.den <= 0x4000_0000_0000 * 0x4000_0000_0000,
    {
        let l: int = 0x4000_0000_0000;
        let n = value.num as int;
        let d = value.den as int;
        let u = self.unit as int;
        let ox = self.origin_x as int;
        let oy = self.origin_y as int;
        let vs = self.view_size as int;
        let e = extent as int;
        assert(-l * l * 2 <= n * u <= l * l * 2) by (nonlinear_arith)
            requires
                -2 * l <= n <= 2 * l,
                0 <= u <= l,
                l >= 0,
        ;
        assert(-l * l <= ox * d <= l * l) by (nonlinear_arith)
            requires
                -l <= ox <= l,
                0 <= d <= l,
                l >= 0,
        ;
        assert(-l * l <= oy * d <= l * l) by (nonlinear_arith)
            requires
                -l <= oy <= l,
                0 <= d <= l,
                l >= 0,
        ;
        assert(1 <= vs * d <= l * l) by (nonlinear_arith)
            requires
                1 <= vs <= l,
                1 <= d <= l,
        ;
        let dx = n * u - ox * d;
        let dy = n * u - oy * d;
        let b = l * l * 3;
        assert(-b * 0x1_0000_0000 <= dx * e <= b * 0x1_0000_0000) by (nonlinear_arith)
            requires
                -b <= dx <= b,
                0 <= e <= 0x1_0000_0000,
                b >= 0,
        ;
        assert(-b * 0x1_0000_0000 <= dy * e <= b * 0x1_0000_0000) by (nonlinear_arith)
            requires
                -b <= dy <= b,
                0 <= e <= 0x1_0000_0000,
                b >= 0,
        ;
    }

    /// The pixel column of a normalized coordinate, exactly:
    /// `(value - origin_x) / view_size * pixel_width`.
    pub fn map_x(&self, value: Coord) -> (p: Fraction)
        requires
            self.wf(),
            value.wf(),
        ensures
            p.num == self.map_x_num(value),
            p.den == self.map_den(value),
            p.wf(),
    {
        proof {
            self.lemma_map_in_range(value, self.pixel_width);
        }
        let offset: i128 = (value.num as i128) * (self.unit as i128) - (self.origin_x as i128) * (
        value.den as i128);
        Fraction {
            num: offset * (self.pixel_width as i128),
            den: (self.view_size as i128) * (value.den as i128),
        }
    }

    /// The pixel row of a normalized coordinate, exactly:
    /// `(value - origin_y) / view_size * pixel_height`.
    pub fn map_y(&self, value: Coord) -> (p: Fraction)
        requires
            self.wf(),
            value.wf(),
        ensures
            p.num == self.map_y_num(value),
            p.den == self.map_den(value),
            p.wf(),
    {
        proof {
            self.lemma_map_in_range(value, self.pixel_height);
        }
        let offset: i128 = (value.num as i128) * (self.unit as i128) - (self.origin_y as i128) * (
        value.den as i128);
        Fraction {
            num: offset * (self.pixel_height as i128),
            den: (self.view_size as i128) * (value.den as i128),
        }
    }

    /// The first pixel column that `rect` touches: the floor of its left
    /// edge's column.
    pub open spec fn col_lo(self, rect: Rect) -> int {
        floor_div(self.map_x_num(rect.spec_left()), self.map_den(rect.spec_left()))
    }

    /// The column after the last that `rect` touches: the ceiling of its
    /// right edge's column.
    pub open spec fn col_hi(self, rect: Rect) -> int {
        ceil_div(self.map_x_num(rect.spec_right()), self.map_den(rect.spec_right()))
    }

    /// The first pixel row that `rect` touches.
    pub open spec fn row_lo(self, rect: Rect) -> int {
        floor_div(self.map_y_num(rect.spec_top()), self.map_den(rect.spec_top()))
    }

    /// The row after the last that `rect` touches.
    pub open spec fn row_hi(self, rect: Rect) -> int {
        ceil_div(self.map_y_num(rect.spec_bottom()), self.map_den(rect.spec_bottom()))
    }

    /// Pixel `(u, v)` lies in the pixel bounding box of `rect`. A square
    /// without area has no such pixel.
    pub open spec fn covers(self, rect: Rect, u: int, v: int) -> bool {
        &&& !rect.is_degenerate()
        &&& self.col_lo(rect) <= u < self.col_hi(rect)
        &&& self.row_lo(rect) <= v < self.row_hi(rect)
    }

    /// `rect` and the window have a point in common, edges included.
    pub open spec fn sees(self, rect: Rect) -> bool {
        &&& (rect.x + rect.size) * self.unit >= self.origin_x * rect.denom
        &&& rect.x * self.unit <= (self.origin_x + self.view_size) * rect.denom
        &&& (rect.y + rect.size) * self.unit >= self.origin_y * rect.denom
        &&& rect.y * self.unit <= (self.origin_y + self.view_size) * rect.denom
    }

    /// The side of `rect` is at least one pixel column wide:
    /// `rect.size / view_size * pixel_width >= 1`.
    pub open spec fn resolves(self, rect: Rect) -> bool {
        rect.size * self.unit * self.pixel_width >= self.view_size * rect.denom
    }

    /// Tells whether `rect` and the window have a point in common.
    pub fn is_visible(&self, rect: &Rect) -> (yes: bool)
        requires
            self.wf(),
            rect.wf(),
        ensures
            yes == self.sees(*rect),
    {
        let l = rect.left();
        let r = rect.right();
        let t = rect.top();
        let b = rect.bottom();
        proof {
            self.lemma_map_in_range(l, 0);
            self.lemma_map_in_range(r, 0);
            self.lemma_map_in_range(t, 0);
            self.lemma_map_in_range(b, 0);
            let lim: int = 0x4000_0000_0000;
            let d = rect.denom as int;
            let fx = self.origin_x + self.view_size;
            let fy = self.origin_y + self.view_size;
            assert(-2 * lim * lim <= fx * d <= 2 * lim * lim) by (nonlinear_arith)
                requires
                    -2 * lim <= fx <= 2 * lim,
                    0 <= d <= lim,
                    lim >= 0,
            ;
            assert(-2 * lim * lim <= fy * d <= 2 * lim * lim) by (nonlinear_arith)
                requires
                    -2 * lim <= fy <= 2 * lim,
                    0 <= d <= lim,
                    lim >= 0,
            ;
        }
        let unit: i128 = self.unit as i128;
        let denom: i128 = rect.denom as i128;
        let far_x: i128 = self.origin_x as i128 + self.view_size as i128;
        let far_y: i128 = self.origin_y as i128 + self.view_size as i128;
        (r.num as i128) * unit >= (self.origin_x as i128) * denom && (l.num as i128) * unit
            <= far_x * denom && (b.num as i128) * unit >= (self.origin_y as i128) * denom && (
        t.num as i128) * unit <= far_y * denom
    }

    /// Tells whether the side of `rect` is at least one pixel column wide.
    pub fn is_resolved(&self, rect: &Rect) -> (yes: bool)
        requires
            self.wf(),
            rect.wf(),
        ensures
            yes == self.resolves(*rect),
    {
        proof {
            let lim: int = 0x4000_0000_0000;
            let s = rect.size as int;
            let u = self.unit as int;
            let w = self.pixel_width as int;
            let vs = self.view_size as int;
            let d = rect.denom as int;
            assert(0 <= s * u <= lim * lim) by (nonlinear_arith)
                requires
                    0 <= s <= lim,
                    0 <= u <= lim,
            ;
            assert(0 <= (s * u) * w <= lim * lim * 0x1_0000_0000) by (nonlinear_arith)
                requires
                    0 <= s * u <= lim * lim,
                    0 <= w <= 0x1_0000_0000,
            ;
            assert(0 <= vs * d <= lim * lim) by (nonlinear_arith)
                requires
                    0 <= vs <= lim,
                    0 <= d <= lim,
            ;
        }
        (rect.size as u128) * (self.unit as u128) * (self.pixel_width as u128) >= (
        self.view_size as u128) * (rect.denom as u128)
    }
}

} // verus!
