//! Exact positions: rational coordinates in the normalized plane, squares
//! on a common denominator, and rational pixel positions with their floor
//! and ceiling.

use vstd::prelude::*;

verus! {

/// The largest magnitude of a numerator or denominator in the normalized
/// plane, `2^46`. Within it every product this crate forms fits 128 bits.
pub const LIMIT: u64 = 0x4000_0000_0000;

/// The deepest level whose cells of the unit square can be written within
/// `LIMIT`.
pub const MAX_DEPTH: u32 = 29;

/// `3^29`, the largest power of three within `LIMIT`: the denominator of
/// the unit square's cells at depth `MAX_DEPTH`.
pub const FINEST: u64 = 68_630_377_364_883;

/// `3^n`.
pub open spec fn pow3(n: nat) -> nat
    decreases n,
{
    if n == 0 {
        1
    } else {
        3 * pow3((n - 1) as nat)
    }
}

/// The greatest integer that is not above `n / d`, for a positive `d`.
pub open spec fn floor_div(n: int, d: int) -> int {
    n / d
}

/// The least integer that is not below `n / d`, for a positive `d`.
pub open spec fn ceil_div(n: int, d: int) -> int {
    if n % d == 0 {
        n / d
    } else {
        n / d + 1
    }
}

/// `floor_div(n, d)` is an integer `q` with `q * d <= n < (q + 1) * d`.
pub proof fn lemma_floor_div(n: int, d: int)
    requires
        d > 0,
    ensures
        floor_div(n, d) * d <= n < (floor_div(n, d) + 1) * d,
{
    let f = floor_div(n, d);
    vstd::arithmetic::div_mod::lemma_fundamental_div_mod(n, d);
    vstd::arithmetic::div_mod::lemma_mod_bound(n, d);
    assert(d * f == f * d) by (nonlinear_arith);
    assert((f + 1) * d == f * d + d) by (nonlinear_arith);
}

/// Every integer `q` with `q * d <= n` is at most `floor_div(n, d)`.
pub proof fn lemma_floor_div_greatest(n: int, d: int, q: int)
    requires
        d > 0,
        q * d <= n,
    ensures
        q <= floor_div(n, d),
{
    let f = floor_div(n, d);
    lemma_floor_div(n, d);
    if q > f {
        assert(q * d >= (f + 1) * d) by (nonlinear_arith)
            requires
                q >= f + 1,
                d > 0,
        ;
    }
}

/// Every integer `q` with `n < q * d` is above `floor_div(n, d)`.
pub proof fn lemma_floor_div_below(n: int, d: int, q: int)
    requires
        d > 0,
        n < q * d,
    ensures
        floor_div(n, d) < q,
{
    let f = floor_div(n, d);
    lemma_floor_div(n, d);
    if q <= f {
        assert(q * d <= f * d) by (nonlinear_arith)
            requires
                q <= f,
                d > 0,
        ;
    }
}

/// `ceil_div(n, d)` is an integer `q` with `(q - 1) * d < n <= q * d`.
pub proof fn lemma_ceil_div(n: int, d: int)
    requires
        d > 0,
    ensures
        (ceil_div(n, d) - 1) * d < n <= ceil_div(n, d) * d,
{
    let f = n / d;
    vstd::arithmetic::div_mod::lemma_fundamental_div_mod(n, d);
    vstd::arithmetic::div_mod::lemma_mod_bound(n, d);
    assert(d * f == f * d) by (nonlinear_arith);
    assert((f + 1) * d == f * d + d) by (nonlinear_arith);
    assert((f - 1) * d == f * d - d) by (nonlinear_arith);
}

/// Every integer `q` with `n <= q * d` is at least `ceil_div(n, d)`.
pub proof fn lemma_ceil_div_least(n: int, d: int, q: int)
    requires
        d > 0,
        n <= q * d,
    ensures
        ceil_div(n, d) <= q,
{
    let c = ceil_div(n, d);
    lemma_ceil_div(n, d);
    if q < c {
        assert(q * d <= (c - 1) * d) by (nonlinear_arith)
            requires
                q <= c - 1,
                d > 0,
        ;
    }
}

/// A position on a pixel axis, exactly: `num / den` pixels.
#[derive(Clone, Copy, Debug)]
pub struct Fraction {
    pub num: i128,
    pub den: i128,
}

impl Fraction {
    pub open spec fn wf(self) -> bool {
        self.den > 0
    }

    /// The greatest whole pixel position that is not above this one.
    pub fn floor(&self) -> (q: i128)
        requires
            self.wf(),
        ensures
            q == floor_div(self.num as int, self.den as int),
    {
        proof {
            lemma_quotient_within(self.num as int, self.den as int);
        }
        match self.num.checked_div_euclid(self.den) {
            Some(q) => q,
            None => 0,
        }
    }

    /// The least whole pixel position that is not below this one.
    pub fn ceil(&self) -> (q: i128)
        requires
            self.wf(),
        ensures
            q == ceil_div(self.num as int, self.den as int),
    {
        proof {
            lemma_quotient_within(self.num as int, self.den as int);
            vstd::arithmetic::div_mod::lemma_mod_bound(self.num as int, self.den as int);
        }
        let q = match self.num.checked_div_euclid(self.den) {
            Some(q) => q,
            None => 0,
        };
        let r = match self.num.checked_rem_euclid(self.den) {
            Some(r) => r,
            None => 0,
        };
        if r == 0 {
            q
        } else {
            proof {
                // a remainder is left, so the quotient lies below the numerator
                let n = self.num as int;
                let d = self.den as int;
                vstd::arithmetic::div_mod::lemma_fundamental_div_mod(n, d);
                if q == i128::MAX {
                    assert(d * q >= q) by (nonlinear_arith)
                        requires
                            d >= 1,
                            q >= 0,
                    ;
                }
            }
            q + 1
        }
    }
}

/// A quotient by a positive divisor is no larger in magnitude than the
/// dividend, so it fits wherever the dividend does.
pub proof fn lemma_quotient_within(n: int, d: int)
    requires
        d > 0,
    ensures
        n >= 0 ==> 0 <= n / d <= n,
        n < 0 ==> n <= n / d < 0,
{
    lemma_floor_div(n, d);
    let f = n / d;
    if n >= 0 {
        lemma_floor_div_greatest(n, d, 0);
        assert(f * d >= f) by (nonlinear_arith)
            requires
                f >= 0,
                d >= 1,
        ;
    } else {
        lemma_floor_div_below(n, d, 0);
        assert((f + 1) * d <= f + 1) by (nonlinear_arith)
            requires
                f + 1 <= 0,
                d >= 1,
        ;
    }
}

/// A coordinate in the normalized plane: `num / den`.
#[derive(Clone, Copy, Debug, PartialEq, Eq, Structural)]
pub struct Coord {
    pub num: i64,
    pub den: u64,
}

impl Coord {
    /// The denominator is positive and both parts are within reach:
    /// the denominator within `LIMIT`, the numerator within twice that.
    pub open spec fn wf(self) -> bool {
        &&& 1 <= self.den <= LIMIT
        &&& -2 * LIMIT <= self.num <= 2 * LIMIT
    }
}

/// A square in the normalized plane: its top-left corner at
/// `(x / denom, y / denom)`, its side `size / denom` long.
#[derive(Clone, Copy, Debug, PartialEq, Eq, Structural)]
pub struct Rect {
    pub x: i64,
    pub y: i64,
    pub size: u64,
    pub denom: u64,
}

impl Rect {
    /// The denominator is positive, and every part is within `LIMIT`.
    pub open spec fn wf(self) -> bool {
        &&& 1 <= self.denom <= LIMIT
        &&& self.size <= LIMIT
        &&& -LIMIT <= self.x <= LIMIT
        &&& -LIMIT <= self.y <= LIMIT
    }

    /// A square without area. It is never drawn.
    pub open spec fn is_degenerate(self) -> bool {
        self.size == 0
    }

    /// The whole fractal: the square from `(0, 0)` to `(1, 1)`.
    pub open spec fn spec_unit() -> Rect {
        Rect { x: 0, y: 0, size: 1, denom: 1 }
    }

    /// The whole fractal: the square from `(0, 0)` to `(1, 1)`.
    pub fn unit() -> (r: Rect)
        ensures
            r == Rect::spec_unit(),
            r.wf(),
    {
        Rect { x: 0, y: 0, size: 1, denom: 1 }
    }

    pub open spec fn spec_left(self) -> Coord {
        Coord { num: self.x, den: self.denom }
    }

    pub open spec fn spec_right(self) -> Coord {
        Coord { num: (self.x + self.size) as i64, den: self.denom }
    }

    pub open spec fn spec_top(self) -> Coord {
        Coord { num: self.y, den: self.denom }
    }

    pub open spec fn spec_bottom(self) -> Coord {
        Coord { num: (self.y + self.size) as i64, den: self.denom }
    }

    /// A cell of the unit square at depth `depth`: a square of side
    /// `1 / 3^depth` on the grid of that step, inside the unit square.
    pub open spec fn is_cell(self, depth: nat) -> bool {
        &&& self.size == 1
        &&& self.denom == pow3(depth)
        &&& 0 <= self.x < self.denom
        &&& 0 <= self.y < self.denom
    }

    /// The first cell of the unit square at depth `MAX_DEPTH`.
    pub open spec fn finest() -> Rect {
        Rect { x: 0, y: 0, size: 1, denom: FINEST }
    }

    /// The coordinate of the left edge.
    pub fn left(&self) -> (c: Coord)
        requires
            self.wf(),
        ensures
            c == self.spec_left(),
            c.wf(),
    {
        Coord { num: self.x, den: self.denom }
    }

    /// The coordinate of the right edge.
    pub fn right(&self) -> (c: Coord)
        requires
            self.wf(),
        ensures
            c == self.spec_right(),
            c.num == self.x + self.size,
            c.wf(),
    {
        Coord { num: self.x + self.size as i64, den: self.denom }
    }

    /// The coordinate of the top edge.
    pub fn top(&self) -> (c: Coord)
        requires
            self.wf(),
        ensures
            c == self.spec_top(),
            c.wf(),
    {
        Coord { num: self.y, den: self.denom }
    }

    /// The coordinate of the bottom edge.
    pub fn bottom(&self) -> (c: Coord)
        requires
            self.wf(),
        ensures
            c == self.spec_bottom(),
            c.num == self.y + self.size,
            c.wf(),
    {
        Coord { num: self.y + self.size as i64, den: self.denom }
    }

    /// The horizontal step of corner cell `i` of the 3×3 partition, in
    /// thirds of the side: cells 0 and 2 lie left, 1 and 3 right.
    pub open spec fn step_x(i: int) -> int {
        if i == 1 || i == 3 {
            2
        } else {
            0
        }
    }

    /// The vertical step of corner cell `i`: cells 0 and 1 lie at the top,
    /// 2 and 3 at the bottom.
    pub open spec fn step_y(i: int) -> int {
        if i == 2 || i == 3 {
            2
        } else {
            0
        }
    }

    /// Corner cell `i` of the 3×3 partition, written on three times the
    /// denominator, where a third of the side is exact.
    pub open spec fn spec_child(self, i: int) -> Rect {
        Rect {
            x: (3 * self.x + Rect::step_x(i) * self.size) as i64,
            y: (3 * self.y + Rect::step_y(i) * self.size) as i64,
            size: self.size,
            denom: (3 * self.denom) as u64,
        }
    }

    /// The four corner cells can be written within `LIMIT`.
    pub open spec fn divisible(self) -> bool {
        &&& 3 * self.denom <= LIMIT
        &&& -LIMIT <= 3 * self.x
        &&& 3 * self.x + 2 * self.size <= LIMIT
        &&& -LIMIT <= 3 * self.y
        &&& 3 * self.y + 2 * self.size <= LIMIT
    }

    /// Tells whether the four corner cells can be written within `LIMIT`.
    pub fn can_divide(&self) -> (yes: bool)
        requires
            self.wf(),
        ensures
            yes == self.divisible(),
    {
        let limit: i128 = LIMIT as i128;
        let x: i128 = self.x as i128;
        let y: i128 = self.y as i128;
        let s: i128 = self.size as i128;
        3 * (self.denom as i128) <= limit && -limit <= 3 * x && 3 * x + 2 * s <= limit && -limit
            <= 3 * y && 3 * y + 2 * s <= limit
    }

    /// Corner cell `i` of the 3×3 partition: 0 top-left, 1 top-right,
    /// 2 bottom-left, 3 bottom-right. The five other cells are left out.
    pub fn child(&self, i: u8) -> (c: Rect)
        requires
            self.wf(),
            self.divisible(),
            i < 4,
        ensures
            c == self.spec_child(i as int),
            c.wf(),
            c.x == 3 * self.x + Rect::step_x(i as int) * self.size,
            c.y == 3 * self.y + Rect::step_y(i as int) * self.size,
            c.denom == 3 * self.denom,
    {
        let dx: i64 = if i == 1 || i == 3 {
            2 * (self.size as i64)
        } else {
            0
        };
        let dy: i64 = if i == 2 || i == 3 {
            2 * (self.size as i64)
        } else {
            0
        };
        Rect { x: 3 * self.x + dx, y: 3 * self.y + dy, size: self.size, denom: 3 * self.denom }
    }
}

} // verus!
