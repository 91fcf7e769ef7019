//! What holds of every frame, proved from the definitions.

use vstd::prelude::*;
use crate::canvas::Bitmap;
use crate::color::Color;
use crate::color::ColorPolicy;
use crate::fractal::is_terminal;
use crate::fractal::overlaid;
use crate::fractal::painted;
use crate::fractal::terminals;
use crate::fractal::within_reach;
use crate::fractal::Terminal;
use crate::frame::FrameRequest;
use crate::geometry::lemma_ceil_div_least;
use crate::geometry::lemma_floor_div_greatest;
use crate::geometry::pow3;
use crate::geometry::Coord;
use crate::geometry::Rect;
use crate::geometry::FINEST;
use crate::geometry::LIMIT;
use crate::geometry::MAX_DEPTH;
use crate::viewport::Anchor;
use crate::viewport::Viewport;
use crate::viewport::Zoom;

verus! {

/// A square that has no point in common with the window holds no pixel of
/// the viewport's extent.
pub proof fn lemma_unseen_holds_no_pixel(view: Viewport, rect: Rect, u: int, v: int)
    requires
        view.wf(),
        rect.wf(),
        !view.sees(rect),
        0 <= u < view.pixel_width,
        0 <= v < view.pixel_height,
    ensures
        !view.covers(rect, u, v),
{
    let unit = view.unit as int;
    let denom = rect.denom as int;
    let size = view.view_size as int;
    let den = size * denom;
    assert(den > 0) by (nonlinear_arith)
        requires
            den == size * denom,
            size >= 1,
            denom >= 1,
    ;
    let w = view.pixel_width as int;
    let h = view.pixel_height as int;
    if (rect.x + rect.size) * unit < view.origin_x * denom {
        let gap = (rect.x + rect.size) * unit - view.origin_x * denom;
        assert(gap * w <= 0 * den) by (nonlinear_arith)
            requires
                gap < 0,
                w >= 0,
        ;
        lemma_ceil_div_least(gap * w, den, 0);
    } else if rect.x * unit > (view.origin_x + size) * denom {
        let gap = rect.x * unit - view.origin_x * denom;
        assert((view.origin_x + size) * denom == view.origin_x * denom + size * denom)
            by (nonlinear_arith);
        assert(gap * w >= w * den) by (nonlinear_arith)
            requires
                gap > den,
                w >= 0,
        ;
        lemma_floor_div_greatest(gap * w, den, w);
    } else if (rect.y + rect.size) * unit < view.origin_y * denom {
        let gap = (rect.y + rect.size) * unit - view.origin_y * denom;
        assert(gap * h <= 0 * den) by (nonlinear_arith)
            requires
                gap < 0,
                h >= 0,
        ;
        lemma_ceil_div_least(gap * h, den, 0);
    } else {
        let gap = rect.y * unit - view.origin_y * denom;
        assert((view.origin_y + size) * denom == view.origin_y * denom + size * denom)
            by (nonlinear_arith);
        assert(gap * h >= h * den) by (nonlinear_arith)
            requires
                gap > den,
                h >= 0,
        ;
        lemma_floor_div_greatest(gap * h, den, h);
    }
}

/// With no level to divide, the frame holds one filled square, the pixel
/// bounding box of the whole unit square, whatever the zoom and the anchor:
/// every pixel in the box has the colour of depth zero, every other pixel
/// the background.
pub proof fn lemma_budget_zero_one_square(request: FrameRequest, u: int, v: int)
    requires
        request.rejection().is_none(),
        request.iteration_budget == 0,
        0 <= u < request.width,
        0 <= v < request.height,
    ensures
        request.pixel(u, v) == if request.viewport().covers(Rect::spec_unit(), u, v) {
            request.policy.color_at(0, 0)
        } else {
            request.background
        },
{
    let view = request.viewport();
    if !view.sees(Rect::spec_unit()) {
        lemma_unseen_holds_no_pixel(view, Rect::spec_unit(), u, v);
    }
}

/// A viewport anchored at the top-left corner maps the coordinate `0` to
/// pixel column and row `0`, and the coordinate `1 / zoom`, the size of the
/// window, to the pixel width and the pixel height, exactly.
pub proof fn lemma_top_left_maps_window_to_extent(width: u32, height: u32, zoom: Zoom)
    requires
        zoom.wf(),
    ensures
        ({
            let view = Viewport::spec_new(width, height, zoom, Anchor::TopLeft);
            let zero = Coord { num: 0, den: 1 };
            let size = Coord { num: zoom.den as i64, den: zoom.num as u64 };
            &&& view.map_den(zero) > 0
            &&& view.map_den(size) > 0
            &&& view.map_x_num(zero) == 0 * view.map_den(zero)
            &&& view.map_y_num(zero) == 0 * view.map_den(zero)
            &&& view.map_x_num(size) == width * view.map_den(size)
            &&& view.map_y_num(size) == height * view.map_den(size)
        }),
{
    let view = Viewport::spec_new(width, height, zoom, Anchor::TopLeft);
    let n = zoom.num as int;
    let d = zoom.den as int;
    let w = width as int;
    let h = height as int;
    assert(d * n > 0) by (nonlinear_arith)
        requires
            d >= 1,
            n >= 1,
    ;
    let zero = Coord { num: 0, den: 1 };
    let size = Coord { num: zoom.den as i64, den: zoom.num as u64 };
    assert(view.unit == n && view.view_size == d && view.origin_x == 0 && view.origin_y == 0);
    assert(view.map_den(zero) == d * 1);
    assert(view.map_den(size) == d * n);
    assert((0 * n - 0 * 1) * w == 0) by (nonlinear_arith);
    assert((0 * n - 0 * 1) * h == 0) by (nonlinear_arith);
    assert((d * n - 0 * n) * w == w * (d * n)) by (nonlinear_arith);
    assert((d * n - 0 * n) * h == h * (d * n)) by (nonlinear_arith);
}

/// A request has one frame: two sample sequences that are both the frame of
/// one request are the same, sample for sample.
pub proof fn lemma_frame_is_unique(request: FrameRequest, first: Seq<u8>, second: Seq<u8>)
    requires
        request.is_frame(first),
        request.is_frame(second),
    ensures
        first == second,
{
    let w = request.width as nat;
    let h = request.height as nat;
    let a = Bitmap { width: w, height: h, samples: first };
    let b = Bitmap { width: w, height: h, samples: second };
    assert forall|i: int| 0 <= i < first.len() implies first[i] == second[i] by {
        let p = i / 3;
        let k = i % 3;
        assert(0 <= p < w * h);
        assert(w > 0) by (nonlinear_arith)
            requires
                0 <= p < w * h,
        ;
        let v = p / (w as int);
        let u = p % (w as int);
        vstd::arithmetic::div_mod::lemma_fundamental_div_mod(p, w as int);
        vstd::arithmetic::div_mod::lemma_mod_bound(p, w as int);
        assert(w * v == v * w) by (nonlinear_arith);
        assert(p == v * w + u);
        assert(0 <= v < h) by (nonlinear_arith)
            requires
                p == v * w + u,
                0 <= u < w,
                0 <= p < w * h,
        ;
        assert(a.in_bounds(u, v));
        assert(a.pixel(u, v) == request.pixel(u, v));
        assert(b.pixel(u, v) == request.pixel(u, v));
        assert(i == a.offset(u, v) + k);
    }
    assert(first =~= second);
}

/// Where the whole unit square has no point in common with the window,
/// every pixel of the frame is background.
pub proof fn lemma_unseen_square_leaves_background(request: FrameRequest, u: int, v: int)
    requires
        !request.viewport().sees(Rect::spec_unit()),
    ensures
        request.pixel(u, v) == request.background,
{
}

/// Two terminal squares reached at the same depth of the same total depth
/// give the pixels they hold the same colour: the one that the policy has
/// for that depth.
pub proof fn lemma_same_depth_same_color(
    view: Viewport,
    policy: ColorPolicy,
    first: Rect,
    second: Rect,
    depth_remaining: nat,
    total_depth: nat,
    u: int,
    v: int,
    s: int,
    t: int,
    under: Color,
    beneath: Color,
)
    requires
        view.sees(first),
        view.sees(second),
        is_terminal(view, first, depth_remaining),
        is_terminal(view, second, depth_remaining),
        view.covers(first, u, v),
        view.covers(second, s, t),
    ensures
        painted(view, policy, first, depth_remaining, total_depth, u, v, under) == painted(
            view,
            policy,
            second,
            depth_remaining,
            total_depth,
            s,
            t,
            beneath,
        ),
        painted(view, policy, first, depth_remaining, total_depth, u, v, under) == policy.color_at(
            total_depth - depth_remaining,
            total_depth as int,
        ),
{
}

/// Drawing two runs of squares one after the other is drawing the second
/// run over what the first has left.
pub proof fn lemma_overlaid_in_turn(
    view: Viewport,
    policy: ColorPolicy,
    first: Seq<Terminal>,
    second: Seq<Terminal>,
    total_depth: nat,
    u: int,
    v: int,
    under: Color,
)
    ensures
        overlaid(view, policy, first + second, total_depth, u, v, under) == overlaid(
            view,
            policy,
            second,
            total_depth,
            u,
            v,
            overlaid(view, policy, first, total_depth, u, v, under),
        ),
    decreases second.len(),
{
    if second.len() == 0 {
        assert(first + second =~= first);
    } else {
        assert((first + second).last() == second.last());
        assert((first + second).drop_last() =~= first + second.drop_last());
        lemma_overlaid_in_turn(view, policy, first, second.drop_last(), total_depth, u, v, under);
    }
}

/// A pixel of the drawn fractal has the colour of the last terminal square
/// whose pixel bounding box holds it, and keeps its colour where none does.
pub proof fn lemma_painted_by_last_terminal(
    view: Viewport,
    policy: ColorPolicy,
    rect: Rect,
    depth_remaining: nat,
    total_depth: nat,
    u: int,
    v: int,
    under: Color,
)
    ensures
        painted(view, policy, rect, depth_remaining, total_depth, u, v, under) == overlaid(
            view,
            policy,
            terminals(view, rect, depth_remaining),
            total_depth,
            u,
            v,
            under,
        ),
    decreases depth_remaining,
{
    if rect.is_degenerate() || !view.sees(rect) {
        assert(terminals(view, rect, depth_remaining).len() == 0);
    } else if is_terminal(view, rect, depth_remaining) {
        let only = seq![Terminal { rect, depth_remaining }];
        assert(terminals(view, rect, depth_remaining) == only);
        assert(only.len() == 1);
        assert(only.last() == Terminal { rect, depth_remaining });
        assert(only.drop_last().len() == 0);
        assert(overlaid(view, policy, only.drop_last(), total_depth, u, v, under) == under);
    } else {
        let next = (depth_remaining - 1) as nat;
        let t0 = terminals(view, rect.spec_child(0), next);
        let t1 = terminals(view, rect.spec_child(1), next);
        let t2 = terminals(view, rect.spec_child(2), next);
        let t3 = terminals(view, rect.spec_child(3), next);
        let c0 = painted(view, policy, rect.spec_child(0), next, total_depth, u, v, under);
        let c1 = painted(view, policy, rect.spec_child(1), next, total_depth, u, v, c0);
        let c2 = painted(view, policy, rect.spec_child(2), next, total_depth, u, v, c1);
        lemma_painted_by_last_terminal(
            view,
            policy,
            rect.spec_child(0),
            next,
            total_depth,
            u,
            v,
            under,
        );
        lemma_painted_by_last_terminal(view, policy, rect.spec_child(1), next, total_depth, u, v, c0);
        lemma_painted_by_last_terminal(view, policy, rect.spec_child(2), next, total_depth, u, v, c1);
        lemma_painted_by_last_terminal(view, policy, rect.spec_child(3), next, total_depth, u, v, c2);
        lemma_overlaid_in_turn(view, policy, t0, t1, total_depth, u, v, under);
        lemma_overlaid_in_turn(view, policy, t0 + t1, t2, total_depth, u, v, under);
        lemma_overlaid_in_turn(view, policy, t0 + t1 + t2, t3, total_depth, u, v, under);
    }
}

/// With one level to divide, a square that is seen, at least a pixel
/// column wide and divisible, and whose corner cells are all seen, has
/// exactly four terminal squares: its corner cells, each a third of its
/// side, drawn top-left, top-right, bottom-left, bottom-right.
pub proof fn lemma_one_level_four_corners(view: Viewport, rect: Rect)
    requires
        !rect.is_degenerate(),
        view.sees(rect),
        view.resolves(rect),
        rect.divisible(),
        forall|i: int| 0 <= i < 4 ==> view.sees(#[trigger] rect.spec_child(i)),
    ensures
        terminals(view, rect, 1) == seq![
            Terminal { rect: rect.spec_child(0), depth_remaining: 0 },
            Terminal { rect: rect.spec_child(1), depth_remaining: 0 },
            Terminal { rect: rect.spec_child(2), depth_remaining: 0 },
            Terminal { rect: rect.spec_child(3), depth_remaining: 0 },
        ],
        forall|i: int|
            0 <= i < 4 ==> 3 * (#[trigger] rect.spec_child(i)).size * rect.denom == rect.size
                * rect.spec_child(i).denom,
{
    assert(terminals(view, rect.spec_child(0), 0) == seq![
        Terminal { rect: rect.spec_child(0), depth_remaining: 0 },
    ]);
    assert(terminals(view, rect.spec_child(1), 0) == seq![
        Terminal { rect: rect.spec_child(1), depth_remaining: 0 },
    ]);
    assert(terminals(view, rect.spec_child(2), 0) == seq![
        Terminal { rect: rect.spec_child(2), depth_remaining: 0 },
    ]);
    assert(terminals(view, rect.spec_child(3), 0) == seq![
        Terminal { rect: rect.spec_child(3), depth_remaining: 0 },
    ]);
    assert(terminals(view, rect, 1) =~= seq![
        Terminal { rect: rect.spec_child(0), depth_remaining: 0 },
        Terminal { rect: rect.spec_child(1), depth_remaining: 0 },
        Terminal { rect: rect.spec_child(2), depth_remaining: 0 },
        Terminal { rect: rect.spec_child(3), depth_remaining: 0 },
    ]);
    assert forall|i: int| 0 <= i < 4 implies 3 * (#[trigger] rect.spec_child(i)).size * rect.denom
        == rect.size * rect.spec_child(i).denom by {
        let s = rect.size as int;
        let d = rect.denom as int;
        assert(3 * s * d == s * (3 * d)) by (nonlinear_arith);
    }
}

/// Powers of three grow with the exponent.
pub proof fn lemma_pow3_grows(low: nat, high: nat)
    requires
        low <= high,
    ensures
        1 <= pow3(low) <= pow3(high),
    decreases high,
{
    if low < high {
        lemma_pow3_grows(low, (high - 1) as nat);
    } else if low > 0 {
        lemma_pow3_grows((low - 1) as nat, (high - 1) as nat);
    }
}

/// `FINEST` is `3^29`, and it lies within `LIMIT`.
pub proof fn lemma_finest_is_pow3()
    ensures
        pow3(MAX_DEPTH as nat) == FINEST,
        FINEST <= LIMIT,
{
    reveal_with_fuel(pow3, 30);
}

/// Below a cell of the unit square every square that is to be divided can
/// be, as long as the levels end at depth `MAX_DEPTH` or the cells of that
/// depth are under one pixel column wide.
pub proof fn lemma_cells_within_reach(view: Viewport, rect: Rect, depth: nat, depth_remaining: nat)
    requires
        view.wf(),
        rect.is_cell(depth),
        depth + depth_remaining <= MAX_DEPTH || !view.resolves(Rect::finest()),
    ensures
        within_reach(view, rect, depth_remaining),
    decreases depth_remaining,
{
    if !(rect.is_degenerate() || !view.sees(rect) || is_terminal(view, rect, depth_remaining)) {
        lemma_finest_is_pow3();
        let denom = rect.denom as int;
        if depth >= MAX_DEPTH {
            // the cell is a pixel column wide, so the finer cells of the last depth cannot be
            lemma_pow3_grows(MAX_DEPTH as nat, depth);
            let size = view.view_size as int;
            assert(size * denom >= size * FINEST) by (nonlinear_arith)
                requires
                    denom >= FINEST,
                    size >= 0,
            ;
            assert(false);
        }
        lemma_pow3_grows(depth + 1, MAX_DEPTH as nat);
        assert(rect.divisible());
        let next = (depth_remaining - 1) as nat;
        assert forall|i: int| 0 <= i < 4 implies within_reach(
            view,
            #[trigger] rect.spec_child(i),
            next,
        ) by {
            assert(rect.spec_child(i).is_cell(depth + 1));
            lemma_cells_within_reach(view, rect.spec_child(i), depth + 1, next);
        }
        assert(within_reach(view, rect.spec_child(0), next));
        assert(within_reach(view, rect.spec_child(1), next));
        assert(within_reach(view, rect.spec_child(2), next));
        assert(within_reach(view, rect.spec_child(3), next));
    }
}

/// Below the unit square every square that is to be divided can be, as long
/// as no more than `MAX_DEPTH` levels are asked for or the cells of that
/// depth are under one pixel column wide.
pub proof fn lemma_unit_within_reach(view: Viewport, budget: nat)
    requires
        view.wf(),
        budget <= MAX_DEPTH || !view.resolves(Rect::finest()),
    ensures
        within_reach(view, Rect::spec_unit(), budget),
{
    lemma_cells_within_reach(view, Rect::spec_unit(), 0, budget);
}

} // verus!
