//! Filling the pixels of one square.

use vstd::prelude::*;
use crate::canvas::Canvas;
use crate::color::Color;
use crate::geometry::Rect;
use crate::viewport::Viewport;

verus! {

/// `low`, but not below zero and not above `extent`.
fn clip_low(low: i128, extent: u32) -> (c: u32)
    ensures
        c == if low < 0 {
            0
        } else if low > extent {
            extent as int
        } else {
            low as int
        },
{
    if low < 0 {
        0
    } else if low > extent as i128 {
        extent
    } else {
        low as u32
    }
}

/// Fills the pixel bounding box of `rect` with `color`: from the floor of
/// the top-left corner's pixel position to the ceiling of the bottom-right
/// corner's, as far as it lies on the canvas. Where no pixel of the canvas
/// lies in the box, and for a square without area, nothing is written.
pub fn draw_rect(canvas: &mut Canvas, rect: Rect, color: Color, view: &Viewport)
    requires
        old(canvas)@.wf(),
        rect.wf(),
        view.wf(),
    ensures
        final(canvas)@.wf(),
        final(canvas)@.same_shape(old(canvas)@),
        forall|u: int, v: int|
            old(canvas)@.in_bounds(u, v) ==> #[trigger] final(canvas)@.pixel(u, v) == if view.covers(
                rect,
                u,
                v,
            ) {
                color
            } else {
                old(canvas)@.pixel(u, v)
            },
        (forall|u: int, v: int| old(canvas)@.in_bounds(u, v) ==> !#[trigger] view.covers(rect, u, v))
            ==> final(canvas)@ == old(canvas)@,
{
    if rect.size == 0 {
        return ;
    }
    let width = canvas.width();
    let height = canvas.height();
    let x0 = clip_low(view.map_x(rect.left()).floor(), width);
    let x1 = clip_low(view.map_x(rect.right()).ceil(), width);
    let y0 = clip_low(view.map_y(rect.top()).floor(), height);
    let y1 = clip_low(view.map_y(rect.bottom()).ceil(), height);
    if x0 >= x1 || y0 >= y1 {
        return ;
    }
    assert(old(canvas)@.in_bounds(x0 as int, y0 as int) && view.covers(rect, x0 as int, y0 as int));
    let mut y = y0;
    while y < y1
        invariant
            y0 <= y <= y1,
            x0 < x1 <= width,
            y1 <= height,
            width == old(canvas)@.width,
            height == old(canvas)@.height,
            canvas@.wf(),
            canvas@.same_shape(old(canvas)@),
            forall|u: int, v: int|
                old(canvas)@.in_bounds(u, v) ==> #[trigger] canvas@.pixel(u, v) == if x0 <= u < x1
                    && y0 <= v < y {
                    color
                } else {
                    old(canvas)@.pixel(u, v)
                },
        decreases y1 - y,
    {
        let mut x = x0;
        while x < x1
            invariant
                y0 <= y < y1,
                x0 <= x <= x1,
                x1 <= width,
                y1 <= height,
                width == old(canvas)@.width,
                height == old(canvas)@.height,
                canvas@.wf(),
                canvas@.same_shape(old(canvas)@),
                forall|u: int, v: int|
                    old(canvas)@.in_bounds(u, v) ==> #[trigger] canvas@.pixel(u, v) == if x0 <= u
                        < x1 && (y0 <= v < y || (v == y && u < x)) {
                        color
                    } else {
                        old(canvas)@.pixel(u, v)
                    },
            decreases x1 - x,
        {
            canvas.put(x, y, color);
            x = x + 1;
        }
        y = y + 1;
    }
}

} // verus!
