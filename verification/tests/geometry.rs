use cantor_square::geometry::Coord;
use cantor_square::geometry::Fraction;
use cantor_square::geometry::Rect;
use cantor_square::geometry::LIMIT;

#[test]
fn floor_and_ceil_of_positive_fractions() {
    let third = Fraction { num: 100, den: 3 };
    assert_eq!(third.floor(), 33);
    assert_eq!(third.ceil(), 34);
    let whole = Fraction { num: 99, den: 3 };
    assert_eq!(whole.floor(), 33);
    assert_eq!(whole.ceil(), 33);
    let zero = Fraction { num: 0, den: 7 };
    assert_eq!(zero.floor(), 0);
    assert_eq!(zero.ceil(), 0);
}

#[test]
fn floor_and_ceil_of_negative_fractions_round_down_and_up() {
    let f = Fraction { num: -7, den: 2 };
    assert_eq!(f.floor(), -4);
    assert_eq!(f.ceil(), -3);
    let g = Fraction { num: -8, den: 2 };
    assert_eq!(g.floor(), -4);
    assert_eq!(g.ceil(), -4);
    let h = Fraction { num: -1, den: 1000 };
    assert_eq!(h.floor(), -1);
    assert_eq!(h.ceil(), 0);
}

#[test]
fn floor_and_ceil_at_the_ends_of_the_range() {
    let top = Fraction { num: i128::MAX, den: 1 };
    assert_eq!(top.floor(), i128::MAX);
    assert_eq!(top.ceil(), i128::MAX);
    let bottom = Fraction { num: i128::MIN, den: 1 };
    assert_eq!(bottom.floor(), i128::MIN);
    assert_eq!(bottom.ceil(), i128::MIN);
    let half = Fraction { num: i128::MAX, den: 2 };
    assert_eq!(half.floor(), i128::MAX / 2);
    assert_eq!(half.ceil(), i128::MAX / 2 + 1);
}

#[test]
fn the_unit_square_runs_from_zero_to_one() {
    let unit = Rect::unit();
    assert_eq!(unit, Rect { x: 0, y: 0, size: 1, denom: 1 });
    assert_eq!(unit.left(), Coord { num: 0, den: 1 });
    assert_eq!(unit.right(), Coord { num: 1, den: 1 });
    assert_eq!(unit.top(), Coord { num: 0, den: 1 });
    assert_eq!(unit.bottom(), Coord { num: 1, den: 1 });
}

#[test]
fn edges_of_a_square_share_its_denominator() {
    let r = Rect { x: -5, y: 7, size: 4, denom: 9 };
    assert_eq!(r.left(), Coord { num: -5, den: 9 });
    assert_eq!(r.right(), Coord { num: -1, den: 9 });
    assert_eq!(r.top(), Coord { num: 7, den: 9 });
    assert_eq!(r.bottom(), Coord { num: 11, den: 9 });
}

#[test]
fn children_are_the_four_corner_cells() {
    let unit = Rect::unit();
    assert!(unit.can_divide());
    assert_eq!(unit.child(0), Rect { x: 0, y: 0, size: 1, denom: 3 });
    assert_eq!(unit.child(1), Rect { x: 2, y: 0, size: 1, denom: 3 });
    assert_eq!(unit.child(2), Rect { x: 0, y: 2, size: 1, denom: 3 });
    assert_eq!(unit.child(3), Rect { x: 2, y: 2, size: 1, denom: 3 });
}

#[test]
fn children_of_a_corner_cell_are_ninths() {
    let cell = Rect { x: 2, y: 0, size: 1, denom: 3 };
    assert_eq!(cell.child(0), Rect { x: 6, y: 0, size: 1, denom: 9 });
    assert_eq!(cell.child(1), Rect { x: 8, y: 0, size: 1, denom: 9 });
    assert_eq!(cell.child(2), Rect { x: 6, y: 2, size: 1, denom: 9 });
    assert_eq!(cell.child(3), Rect { x: 8, y: 2, size: 1, denom: 9 });
}

#[test]
fn children_of_a_wider_square_step_by_two_thirds_of_its_side() {
    let r = Rect { x: -3, y: 1, size: 5, denom: 2 };
    assert_eq!(r.child(3), Rect { x: 1, y: 13, size: 5, denom: 6 });
    assert_eq!(r.child(0), Rect { x: -9, y: 3, size: 5, denom: 6 });
}

#[test]
fn a_square_divides_only_within_the_limit() {
    assert_eq!(LIMIT, 1 << 46);
    // 3^29 is the last power of three within the limit
    let deepest = Rect { x: 0, y: 0, size: 1, denom: 68_630_377_364_883 };
    assert!(!deepest.can_divide());
    let before = Rect { x: 0, y: 0, size: 1, denom: 22_876_792_454_961 };
    assert!(before.can_divide());
    assert_eq!(before.child(1).denom, 68_630_377_364_883);
    // a corner that would leave the limit
    let far = Rect { x: (LIMIT / 3) as i64, y: 0, size: 1, denom: 1 };
    assert!(!far.can_divide());
    let near = Rect { x: (LIMIT / 3) as i64 - 1, y: 0, size: 1, denom: 1 };
    assert!(near.can_divide());
    let low = Rect { x: 0, y: -((LIMIT / 3) as i64) - 1, size: 0, denom: 1 };
    assert!(!low.can_divide());
}
