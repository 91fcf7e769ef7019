//! Colours of terminal squares and of the background.

use vstd::prelude::*;

verus! {

/// An opaque colour with 8-bit red, green and blue channels.
#[derive(Clone, Copy, Debug, PartialEq, Eq, Structural)]
pub struct Color {
    pub r: u8,
    pub g: u8,
    pub b: u8,
}

/// How a terminal square gets its colour.
#[derive(Clone, Copy, Debug, PartialEq, Eq, Structural)]
pub enum ColorPolicy {
    /// Every terminal square has this colour.
    Fixed(Color),
    /// The colour runs with the depth at which the square was reached.
    DepthGradient,
}

/// `value` held to the range of a channel, `0 ..= 255`.
pub open spec fn clamp_channel(value: int) -> u8 {
    if value < 0 {
        0u8
    } else if value > 255 {
        255u8
    } else {
        value as u8
    }
}

/// The gradient colour of a square reached at `depth_reached` of
/// `total_depth`. With `ratio = depth_reached / total_depth`, red is
/// `50 + 205 * ratio`, green `80 + 120 * (1 - ratio)` and blue
/// `180 + 50 * ratio`, each rounded down and held to `0 ..= 255`. Where
/// `total_depth` is zero the ratio counts as zero.
pub open spec fn gradient(depth_reached: int, total_depth: int) -> Color {
    if total_depth <= 0 {
        Color { r: 50, g: 200, b: 180 }
    } else {
        Color {
            r: clamp_channel(50 + (205 * depth_reached) / total_depth),
            g: clamp_channel(80 + (120 * (total_depth - depth_reached)) / total_depth),
            b: clamp_channel(180 + (50 * depth_reached) / total_depth),
        }
    }
}

/// Holds `value` to the range of a channel.
fn clamp_to_channel(value: i64) -> (c: u8)
    ensures
        c == clamp_channel(value as int),
{
    if value < 0 {
        0
    } else if value > 255 {
        255
    } else {
        value as u8
    }
}

/// `base + weight * part / whole`, rounded down and held to a channel.
fn blend(base: i64, weight: i64, part: i64, whole: i64) -> (c: u8)
    requires
        0 <= base <= 255,
        0 <= weight <= 255,
        -0x1_0000_0000 <= part <= 0x1_0000_0000,
        1 <= whole <= 0x1_0000_0000,
    ensures
        c == clamp_channel(base + (weight * part) / (whole as int)),
{
    assert(-255 * 0x1_0000_0000 <= weight * part <= 255 * 0x1_0000_0000) by (nonlinear_arith)
        requires
            0 <= weight <= 255,
            -0x1_0000_0000 <= part <= 0x1_0000_0000,
    ;
    let scaled: i64 = weight * part;
    proof {
        crate::geometry::lemma_quotient_within(scaled as int, whole as int);
    }
    let share: i64 = match scaled.checked_div_euclid(whole) {
        Some(q) => q,
        None => 0,
    };
    clamp_to_channel(base + share)
}

impl ColorPolicy {
    /// The colour of a terminal square reached at `depth_reached` of
    /// `total_depth`. It depends on nothing else.
    pub open spec fn color_at(self, depth_reached: int, total_depth: int) -> Color {
        match self {
            ColorPolicy::Fixed(color) => color,
            ColorPolicy::DepthGradient => gradient(depth_reached, total_depth),
        }
    }

    /// Picks the colour of a terminal square that was reached with
    /// `depth_remaining` of `total_depth` levels left.
    pub fn pick(&self, depth_remaining: u32, total_depth: u32) -> (c: Color)
        ensures
            c == self.color_at(total_depth - depth_remaining, total_depth as int),
    {
        match self {
            ColorPolicy::Fixed(color) => *color,
            ColorPolicy::DepthGradient => {
                if total_depth == 0 {
                    Color { r: 50, g: 200, b: 180 }
                } else {
                    let total: i64 = total_depth as i64;
                    let reached: i64 = total - depth_remaining as i64;
                    Color {
                        r: blend(50, 205, reached, total),
                        g: blend(80, 120, total - reached, total),
                        b: blend(180, 50, reached, total),
                    }
                }
            },
        }
    }
}

} // verus!
