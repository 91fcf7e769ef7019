//! Exact-arithmetic renderer for the Cantor-square fractal: of a square's
//! 3×3 partition only the four corner cells are kept, level by level.
//!
//! Positions in the normalized plane are rationals on a common denominator,
//! pixel positions are integers, and every function states what it returns
//! over those. A numerator or denominator of the normalized plane stays
//! within `geometry::LIMIT`, which lets the unit square be divided down to
//! depth `geometry::MAX_DEPTH`; a frame that would need finer cells is
//! turned down.
//!
//! `frame::render_frame` is the whole of it for a caller: from a request to
//! the samples of the picture. `laws` holds what is proved of every frame.

pub mod color;
pub mod canvas;
pub mod geometry;
pub mod viewport;
pub mod raster;
pub mod fractal;
pub mod frame;
pub mod display;
pub mod laws;
