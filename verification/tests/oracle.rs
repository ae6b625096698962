//! The four primitives composed the way a partitioning engine drives them:
//! bounding volume, cut selection over the fragment corners, splitting at
//! the chosen cut, and distance queries against the children.

use kdseg::cutting::cut_point;
use kdseg::distance::{bound_to_bound_dist_sq, bound_to_point_dist};
use kdseg::geometry::{compute_bound, Axis, Point, Segment};
use kdseg::rational::Rat;
use kdseg::splitting::split_fragment;

fn pt(x: i64, y: i64) -> Point {
    Point { x: Rat::from_int(x), y: Rat::from_int(y) }
}

#[test]
fn build_step_over_one_shape() {
    let shape = Segment { src: pt(0, 0), dst: pt(100, 100) };
    let root = compute_bound(&shape);
    let corners = vec![root.min_corner(), root.max_corner()];
    let info = cut_point(&Axis::Horizontal, &corners).unwrap().unwrap();
    assert!(info.cut.x.eq_val(&Rat::from_int(50)));
    let (lo, hi) = split_fragment(&shape, &root, &Axis::Horizontal, &info.cut)
        .unwrap()
        .unwrap();
    assert!(lo.rb.x.eq_val(&Rat::from_int(50)));
    assert!(lo.rb.y.eq_val(&Rat::from_int(50)));
    assert!(hi.lt.x.eq_val(&Rat::from_int(50)));
    assert!(hi.lt.y.eq_val(&Rat::from_int(50)));

    // The two children sit flush: squared distance zero between them,
    // and the cut coordinate is at distance zero from both.
    let d = bound_to_bound_dist_sq(&lo, &hi).unwrap();
    assert!(d.eq_val(&Rat::from_int(0)));
    let dl = bound_to_point_dist(&Axis::Horizontal, &lo, &info.cut).unwrap();
    assert!(dl.eq_val(&Rat::from_int(0)));

    // A cut coordinate beyond a child's own extent declines.
    let outside = pt(60, 0);
    assert!(matches!(
        split_fragment(&shape, &lo, &Axis::Horizontal, &outside),
        Ok(None)
    ));
}
