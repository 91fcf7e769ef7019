//! One frame: from a request to the samples of the finished picture.

use vstd::prelude::*;
use crate::canvas::Bitmap;
use crate::canvas::Canvas;
use crate::color::Color;
use crate::color::ColorPolicy;
use crate::fractal::generate_cantor;
use crate::fractal::painted;
use crate::geometry::Rect;
use crate::geometry::FINEST;
use crate::geometry::MAX_DEPTH;
use crate::laws::lemma_unit_within_reach;
use crate::viewport::Anchor;
use crate::viewport::Viewport;
use crate::viewport::Zoom;

verus! {

/// All that decides one frame. Nothing is kept from one frame to the next.
#[derive(Clone, Copy, Debug, PartialEq, Eq, Structural)]
pub struct FrameRequest {
    /// The picture's width in pixels.
    pub width: u32,
    /// The picture's height in pixels.
    pub height: u32,
    /// How many levels the unit square is divided at most.
    pub iteration_budget: u32,
    pub zoom: Zoom,
    pub anchor: Anchor,
    /// The colour of every pixel that no terminal square holds.
    pub background: Color,
    pub policy: ColorPolicy,
}

/// Why a request is turned down before anything is drawn.
#[derive(Clone, Copy, Debug, PartialEq, Eq, Structural)]
pub enum RequestError {
    /// The width or the height is zero.
    EmptyImage,
    /// The zoom's numerator or denominator is zero.
    InvalidZoom,
    /// The window for this zoom and anchor cannot be written within the
    /// limit of the normalized plane.
    WindowOutOfRange,
    /// More than `MAX_DEPTH` levels are asked for, the unit square is seen,
    /// and its cells at depth `MAX_DEPTH` are still a pixel column wide:
    /// their corner cells cannot be written within the limit of the
    /// normalized plane.
    DepthOutOfRange,
    /// The samples of one row cannot be counted, or the picture's samples
    /// would not fit a vector.
    ImageTooLarge,
}

impl FrameRequest {
    /// The first rule that the request breaks, if it breaks one.
    pub open spec fn rejection(self) -> Option<RequestError> {
        if self.width == 0 || self.height == 0 {
            Some(RequestError::EmptyImage)
        } else if !self.zoom.wf() {
            Some(RequestError::InvalidZoom)
        } else if !Viewport::constructible(self.zoom, self.anchor) {
            Some(RequestError::WindowOutOfRange)
        } else if self.too_deep() {
            Some(RequestError::DepthOutOfRange)
        } else if !Canvas::fits(self.width, self.height) {
            Some(RequestError::ImageTooLarge)
        } else {
            None
        }
    }

    /// The frame would need cells below depth `MAX_DEPTH`.
    pub open spec fn too_deep(self) -> bool {
        &&& self.iteration_budget > MAX_DEPTH
        &&& self.viewport().sees(Rect::spec_unit())
        &&& self.viewport().resolves(Rect::finest())
    }

    /// The viewport of the frame.
    pub open spec fn viewport(self) -> Viewport {
        Viewport::spec_new(self.width, self.height, self.zoom, self.anchor)
    }

    /// The colour of pixel `(u, v)` of the frame: the fractal below the unit
    /// square, drawn over the background.
    pub open spec fn pixel(self, u: int, v: int) -> Color {
        painted(
            self.viewport(),
            self.policy,
            Rect::spec_unit(),
            self.iteration_budget as nat,
            self.iteration_budget as nat,
            u,
            v,
            self.background,
        )
    }

    /// `samples` is the frame: three samples for each pixel, row by row, in
    /// the order red, green, blue, and each pixel has the frame's colour.
    pub open spec fn is_frame(self, samples: Seq<u8>) -> bool {
        let bitmap = Bitmap { width: self.width as nat, height: self.height as nat, samples };
        &&& bitmap.wf()
        &&& forall|u: int, v: int|
            bitmap.in_bounds(u, v) ==> #[trigger] bitmap.pixel(u, v) == self.pixel(u, v)
    }

    /// Checks the request, and gives the frame's viewport where it breaks
    /// no rule.
    pub fn check(&self) -> (r: Result<Viewport, RequestError>)
        ensures
            match r {
                Ok(view) => self.rejection().is_none() && view == self.viewport() && view.wf(),
                Err(e) => self.rejection() == Some(e),
            },
    {
        if self.width == 0 || self.height == 0 {
            return Err(RequestError::EmptyImage);
        }
        if self.zoom.num == 0 || self.zoom.den == 0 {
            return Err(RequestError::InvalidZoom);
        }
        let view = match Viewport::new(self.width, self.height, self.zoom, self.anchor) {
            Some(view) => view,
            None => {
                return Err(RequestError::WindowOutOfRange);
            },
        };
        assert(self.width * self.height <= 0xffff_ffff * 0xffff_ffff) by (nonlinear_arith)
            requires
                0 <= self.width <= 0xffff_ffff,
                0 <= self.height <= 0xffff_ffff,
        ;
        if self.iteration_budget > MAX_DEPTH && view.is_visible(&Rect::unit()) && view.is_resolved(
            &Rect { x: 0, y: 0, size: 1, denom: FINEST },
        ) {
            return Err(RequestError::DepthOutOfRange);
        }
        let row: u128 = 3 * (self.width as u128);
        let need: u128 = 3 * (self.width as u128 * self.height as u128);
        if row > usize::MAX as u128 || need > isize::MAX as u128 {
            return Err(RequestError::ImageTooLarge);
        }
        Ok(view)
    }
}

/// Renders one frame: the samples of a `width` by `height` picture, three
/// for each pixel, row by row. A request that breaks a rule is turned down
/// with the first rule it breaks, and nothing is drawn.
///
/// The cells of the unit square can be written down to depth `MAX_DEPTH`,
/// where their denominator is `3^29`. A request for more levels is served
/// as long as no cell of that depth would have to be divided: the unit
/// square is out of sight, or `zoom * width` is under `3^29`, so that those
/// cells are under a pixel column wide. Otherwise it is turned down with
/// `DepthOutOfRange`.
pub fn render_frame(request: &FrameRequest) -> (r: Result<Vec<u8>, RequestError>)
    ensures
        match r {
            Ok(samples) => request.rejection().is_none() && request.is_frame(samples@),
            Err(e) => request.rejection() == Some(e),
        },
{
    let view = match request.check() {
        Ok(view) => view,
        Err(e) => {
            return Err(e);
        },
    };
    let mut canvas = match Canvas::filled(request.width, request.height, request.background) {
        Some(canvas) => canvas,
        None => {
            return Err(RequestError::ImageTooLarge);
        },
    };
    let ghost blank = canvas@;
    proof {
        if view.sees(Rect::spec_unit()) {
            lemma_unit_within_reach(view, request.iteration_budget as nat);
        }
    }
    generate_cantor(
        &mut canvas,
        Rect::unit(),
        request.iteration_budget,
        request.iteration_budget,
        &view,
        &request.policy,
    );
    let ghost done = canvas@;
    let samples = canvas.into_raw();
    proof {
        let bitmap = Bitmap {
            width: request.width as nat,
            height: request.height as nat,
            samples: samples@,
        };
        assert(bitmap == done);
        assert forall|u: int, v: int| bitmap.in_bounds(u, v) implies #[trigger] bitmap.pixel(u, v)
            == request.pixel(u, v) by {
            assert(blank.in_bounds(u, v));
            assert(blank.pixel(u, v) == request.background);
        }
    }
    Ok(samples)
}

} // verus!
