//! The Cantor square: of each square's 3×3 partition only the four corner
//! cells are kept, level by level.

use vstd::prelude::*;
use crate::canvas::Canvas;
use crate::color::Color;
use crate::color::ColorPolicy;
use crate::geometry::Rect;
use crate::raster::draw_rect;
use crate::viewport::Viewport;

verus! {

/// `rect` is drawn as it is and not divided further: no level is left, or
/// its side is under one pixel column wide.
pub open spec fn is_terminal(view: Viewport, rect: Rect, depth_remaining: nat) -> bool {
    depth_remaining == 0 || !view.resolves(rect)
}

/// Every square at or below `rect` that is to be divided can be: the corner
/// cells of each square that has area, is seen and is not terminal can be
/// written within the limit of the normalized plane.
pub open spec fn within_reach(view: Viewport, rect: Rect, depth_remaining: nat) -> bool
    decreases depth_remaining,
{
    if rect.is_degenerate() || !view.sees(rect) || is_terminal(view, rect, depth_remaining) {
        true
    } else {
        let next = (depth_remaining - 1) as nat;
        &&& rect.divisible()
        &&& within_reach(view, rect.spec_child(0), next)
        &&& within_reach(view, rect.spec_child(1), next)
        &&& within_reach(view, rect.spec_child(2), next)
        &&& within_reach(view, rect.spec_child(3), next)
    }
}

/// The colour of pixel `(u, v)` once the fractal below `rect` has been drawn
/// over a pixel that was `under`.
///
/// A square without area, or one that has no point in common with the
/// window, leaves the pixel alone. A terminal square gives the pixel its
/// colour where its pixel bounding box holds the pixel. Any other square
/// hands the pixel through its four corner cells in turn: top-left,
/// top-right, bottom-left, bottom-right.
pub open spec fn painted(
    view: Viewport,
    policy: ColorPolicy,
    rect: Rect,
    depth_remaining: nat,
    total_depth: nat,
    u: int,
    v: int,
    under: Color,
) -> Color
    decreases depth_remaining,
{
    if rect.is_degenerate() || !view.sees(rect) {
        under
    } else if is_terminal(view, rect, depth_remaining) {
        if view.covers(rect, u, v) {
            policy.color_at(total_depth - depth_remaining, total_depth as int)
        } else {
            under
        }
    } else {
        let next = (depth_remaining - 1) as nat;
        let c0 = painted(view, policy, rect.spec_child(0), next, total_depth, u, v, under);
        let c1 = painted(view, policy, rect.spec_child(1), next, total_depth, u, v, c0);
        let c2 = painted(view, policy, rect.spec_child(2), next, total_depth, u, v, c1);
        painted(view, policy, rect.spec_child(3), next, total_depth, u, v, c2)
    }
}

/// A terminal square, with the levels that were left when it was reached.
pub struct Terminal {
    pub rect: Rect,
    pub depth_remaining: nat,
}

/// The terminal squares below `rect`, in the order in which they are drawn.
pub open spec fn terminals(view: Viewport, rect: Rect, depth_remaining: nat) -> Seq<Terminal>
    decreases depth_remaining,
{
    if rect.is_degenerate() || !view.sees(rect) {
        Seq::empty()
    } else if is_terminal(view, rect, depth_remaining) {
        seq![Terminal { rect, depth_remaining }]
    } else {
        let next = (depth_remaining - 1) as nat;
        terminals(view, rect.spec_child(0), next) + terminals(view, rect.spec_child(1), next)
            + terminals(view, rect.spec_child(2), next) + terminals(
            view,
            rect.spec_child(3),
            next,
        )
    }
}

/// The colour of pixel `(u, v)` once `squares` have been drawn in turn over
/// a pixel that was `under`: the colour of the last square whose pixel
/// bounding box holds the pixel, and `under` where none does.
pub open spec fn overlaid(
    view: Viewport,
    policy: ColorPolicy,
    squares: Seq<Terminal>,
    total_depth: nat,
    u: int,
    v: int,
    under: Color,
) -> Color
    decreases squares.len(),
{
    if squares.len() == 0 {
        under
    } else if view.covers(squares.last().rect, u, v) {
        policy.color_at(total_depth - squares.last().depth_remaining, total_depth as int)
    } else {
        overlaid(view, policy, squares.drop_last(), total_depth, u, v, under)
    }
}

/// Draws the fractal below `rect` onto the canvas, `depth_remaining` levels
/// deep at most: a square that has area and is seen is drawn as it is where
/// no level is left or its side is under one pixel column wide, and is
/// otherwise replaced by its four corner cells, each drawn in the same way
/// with one level less.
///
/// The squares to be divided must be written so that their corner cells
/// stay within the limit of the normalized plane (`within_reach`); for the
/// unit square `laws::lemma_unit_within_reach` says when they do.
pub fn generate_cantor(
    canvas: &mut Canvas,
    rect: Rect,
    depth_remaining: u32,
    total_depth: u32,
    view: &Viewport,
    policy: &ColorPolicy,
)
    requires
        old(canvas)@.wf(),
        rect.wf(),
        view.wf(),
        within_reach(*view, rect, depth_remaining as nat),
    ensures
        final(canvas)@.wf(),
        final(canvas)@.same_shape(old(canvas)@),
        forall|u: int, v: int|
            old(canvas)@.in_bounds(u, v) ==> #[trigger] final(canvas)@.pixel(u, v) == painted(
                *view,
                *policy,
                rect,
                depth_remaining as nat,
                total_depth as nat,
                u,
                v,
                old(canvas)@.pixel(u, v),
            ),
    decreases depth_remaining,
{
    if rect.size == 0 || !view.is_visible(&rect) {
        return ;
    }
    if depth_remaining == 0 || !view.is_resolved(&rect) {
        let color = policy.pick(depth_remaining, total_depth);
        draw_rect(canvas, rect, color, view);
        return ;
    }
    let next = depth_remaining - 1;
    generate_cantor(canvas, rect.child(0), next, total_depth, view, policy);
    let ghost after0 = canvas@;
    generate_cantor(canvas, rect.child(1), next, total_depth, view, policy);
    let ghost after1 = canvas@;
    generate_cantor(canvas, rect.child(2), next, total_depth, view, policy);
    let ghost after2 = canvas@;
    generate_cantor(canvas, rect.child(3), next, total_depth, view, policy);
    proof {
        assert forall|u: int, v: int| old(canvas)@.in_bounds(u, v) implies #[trigger] canvas@.pixel(
            u,
            v,
        ) == painted(
            *view,
            *policy,
            rect,
            depth_remaining as nat,
            total_depth as nat,
            u,
            v,
            old(canvas)@.pixel(u, v),
        ) by {
            // each call starts from the pixel that the call before it left
            assert(after0.in_bounds(u, v) && after1.in_bounds(u, v) && after2.in_bounds(u, v));
        }
    }
}

} // verus!
