use kdseg::geometry::{Axis, Bound, GeometryError, Point, Segment};
use kdseg::rational::Rat;
use kdseg::splitting::{split_fragment, CUT_LIMIT};

fn pt(x: i64, y: i64) -> Point {
    Point { x: Rat::from_int(x), y: Rat::from_int(y) }
}

fn seg(sx: i64, sy: i64, dx: i64, dy: i64) -> Segment {
    Segment { src: pt(sx, sy), dst: pt(dx, dy) }
}

fn bound(lx: i64, ly: i64, rx: i64, ry: i64) -> Bound {
    Bound { lt: pt(lx, ly), rb: pt(rx, ry) }
}

fn assert_point_is(p: &Point, x: i64, y: i64) {
    assert!(p.x.eq_val(&Rat::from_int(x)), "x was {}/{}", p.x.num, p.x.den);
    assert!(p.y.eq_val(&Rat::from_int(y)), "y was {}/{}", p.y.num, p.y.den);
}

#[test]
fn split_diagonal_at_midpoint() {
    // The diagonal of a square cut at its middle: the interpolated crossing
    // is the centre, and the children are the two half squares along it.
    let shape = seg(0, 0, 100, 100);
    let fragment = bound(0, 0, 100, 100);
    let cut = pt(50, 0);
    let (lo, hi) = split_fragment(&shape, &fragment, &Axis::Horizontal, &cut)
        .unwrap()
        .unwrap();
    assert_point_is(&lo.lt, 0, 0);
    assert_point_is(&lo.rb, 50, 50);
    assert_point_is(&hi.lt, 50, 50);
    assert_point_is(&hi.rb, 100, 100);
}

#[test]
fn split_below_limit_declines() {
    // A fragment thinner than the subdivision limit on the cut axis is
    // terminal, whatever else holds.
    assert!(CUT_LIMIT == 32);
    let shape = seg(0, 0, 10, 10);
    let fragment = bound(0, 0, 10, 10);
    let cut = pt(5, 0);
    let r = split_fragment(&shape, &fragment, &Axis::Horizontal, &cut);
    assert!(matches!(r, Ok(None)));
}

#[test]
fn split_at_exact_limit_proceeds() {
    // The limit is a strict bound: a fragment exactly as wide as the limit
    // still splits.
    let w = CUT_LIMIT;
    let shape = seg(0, 0, w, w);
    let fragment = bound(0, 0, w, w);
    let cut = pt(w / 2, 0);
    let (lo, hi) = split_fragment(&shape, &fragment, &Axis::Horizontal, &cut)
        .unwrap()
        .unwrap();
    assert_point_is(&lo.rb, w / 2, w / 2);
    assert_point_is(&hi.lt, w / 2, w / 2);
}

#[test]
fn split_cut_on_edge_gives_degenerate_child() {
    // A cut on the fragment's far edge still counts as inside; the high
    // child collapses to the edge line.
    let shape = seg(0, 0, 100, 100);
    let fragment = bound(0, 0, 100, 100);
    let cut = pt(100, 0);
    let (lo, hi) = split_fragment(&shape, &fragment, &Axis::Horizontal, &cut)
        .unwrap()
        .unwrap();
    assert_point_is(&lo.lt, 0, 0);
    assert_point_is(&lo.rb, 100, 100);
    assert_point_is(&hi.lt, 100, 100);
    assert_point_is(&hi.rb, 100, 100);
}

#[test]
fn split_cut_outside_declines() {
    let shape = seg(0, 0, 100, 100);
    let fragment = bound(0, 0, 100, 100);
    let cut = pt(200, 0);
    let r = split_fragment(&shape, &fragment, &Axis::Horizontal, &cut);
    assert!(matches!(r, Ok(None)));

    let cut_low = pt(-1, 0);
    let r_low = split_fragment(&shape, &fragment, &Axis::Horizontal, &cut_low);
    assert!(matches!(r_low, Ok(None)));
}

#[test]
fn split_parallel_segment_declines() {
    // A vertical segment cannot be interpolated against a horizontal cut
    // coordinate: the splitter declines instead of dividing by zero.
    let shape = seg(5, 0, 5, 100);
    let fragment = bound(0, 0, 100, 100);
    let cut = pt(50, 0);
    let r = split_fragment(&shape, &fragment, &Axis::Horizontal, &cut);
    assert!(matches!(r, Ok(None)));
}

#[test]
fn split_degenerate_segment_declines() {
    let shape = seg(40, 40, 40, 40);
    let fragment = bound(0, 0, 100, 100);
    let cut = pt(50, 0);
    assert!(matches!(split_fragment(&shape, &fragment, &Axis::Horizontal, &cut), Ok(None)));
    let cut_v = pt(0, 50);
    assert!(matches!(split_fragment(&shape, &fragment, &Axis::Vertical, &cut_v), Ok(None)));
}

#[test]
fn split_vertical_axis_mirrors_horizontal() {
    let shape = seg(0, 0, 100, 100);
    let fragment = bound(0, 0, 100, 100);
    let cut = pt(0, 40);
    let (lo, hi) = split_fragment(&shape, &fragment, &Axis::Vertical, &cut)
        .unwrap()
        .unwrap();
    assert_point_is(&lo.lt, 0, 0);
    assert_point_is(&lo.rb, 40, 40);
    assert_point_is(&hi.lt, 40, 40);
    assert_point_is(&hi.rb, 100, 100);
}

#[test]
fn split_descending_segment_keeps_sides() {
    // A falling diagonal: the low child holds the high off-axis band.
    let shape = seg(0, 100, 100, 0);
    let fragment = bound(0, 0, 100, 100);
    let cut = pt(25, 0);
    let (lo, hi) = split_fragment(&shape, &fragment, &Axis::Horizontal, &cut)
        .unwrap()
        .unwrap();
    assert_point_is(&lo.lt, 0, 75);
    assert_point_is(&lo.rb, 25, 100);
    assert_point_is(&hi.lt, 25, 0);
    assert_point_is(&hi.rb, 100, 75);
}

#[test]
fn split_fractional_interpolation_is_exact() {
    // Crossing at x = 50 on the segment (0,0)-(99,33): y = 50/3 exactly.
    let shape = seg(0, 0, 99, 33);
    let fragment = bound(0, 0, 99, 99);
    let cut = pt(50, 0);
    let (lo, hi) = split_fragment(&shape, &fragment, &Axis::Horizontal, &cut)
        .unwrap()
        .unwrap();
    let third_of_fifty = Rat::new(50, 3).unwrap();
    assert!(lo.rb.y.eq_val(&third_of_fifty));
    assert!(hi.lt.y.eq_val(&third_of_fifty));
}

#[test]
fn split_overflow_is_reported() {
    // A cut coordinate with a denominator incompatible with the segment's
    // makes the exact difference unrepresentable.
    let shape = Segment {
        src: Point { x: Rat::new(1, 4_000_000_000).unwrap(), y: Rat::from_int(0) },
        dst: Point { x: Rat::from_int(100), y: Rat::from_int(100) },
    };
    let fragment = bound(0, 0, 100, 100);
    let cut = Point { x: Rat::new(50 * 4_000_000_001, 4_000_000_001).unwrap(), y: Rat::from_int(0) };
    let r = split_fragment(&shape, &fragment, &Axis::Horizontal, &cut);
    assert!(matches!(r, Err(GeometryError::NumericOverflow)));
}
