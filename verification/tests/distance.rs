use kdseg::distance::{bound_to_bound_dist_sq, bound_to_point_dist};
use kdseg::geometry::{Axis, Bound, GeometryError, Point};
use kdseg::rational::Rat;

fn pt(x: i64, y: i64) -> Point {
    Point { x: Rat::from_int(x), y: Rat::from_int(y) }
}

fn bound(lx: i64, ly: i64, rx: i64, ry: i64) -> Bound {
    Bound { lt: pt(lx, ly), rb: pt(rx, ry) }
}

fn as_f64(r: &Rat) -> f64 {
    r.num as f64 / r.den as f64
}

#[test]
fn point_dist_takes_nearer_edge() {
    let b = bound(10, 0, 20, 0);
    let d = bound_to_point_dist(&Axis::Horizontal, &b, &pt(26, 0)).unwrap();
    assert!(d.eq_val(&Rat::from_int(6)));
    let d2 = bound_to_point_dist(&Axis::Horizontal, &b, &pt(11, 0)).unwrap();
    assert!(d2.eq_val(&Rat::from_int(1)));
    let d3 = bound_to_point_dist(&Axis::Vertical, &b, &pt(0, -7)).unwrap();
    assert!(d3.eq_val(&Rat::from_int(7)));
}

#[test]
fn point_dist_between_edges_is_smaller_edge_distance() {
    // The metric is the smaller of the two edge distances, also when the
    // coordinate lies between the edges.
    let b = bound(10, 0, 20, 0);
    let d = bound_to_point_dist(&Axis::Horizontal, &b, &pt(14, 0)).unwrap();
    assert!(d.eq_val(&Rat::from_int(4)));
}

#[test]
fn point_dist_overflow_is_reported() {
    let b = Bound {
        lt: Point { x: Rat::new(1, 4_000_000_000).unwrap(), y: Rat::from_int(0) },
        rb: pt(10, 10),
    };
    let p = Point { x: Rat::new(1, 4_000_000_001).unwrap(), y: Rat::from_int(0) };
    let r = bound_to_point_dist(&Axis::Horizontal, &b, &p);
    assert!(matches!(r, Err(GeometryError::NumericOverflow)));
}

#[test]
fn dist_diagonal_placement() {
    // The nearest corners are (1,1) and (3,4): squared distance 13.
    let a = bound(0, 0, 1, 1);
    let b = bound(3, 4, 5, 6);
    let d = bound_to_bound_dist_sq(&a, &b).unwrap();
    assert!(d.eq_val(&Rat::from_int(13)));
    assert!((as_f64(&d).sqrt() - 3.6056).abs() < 1e-3);
}

#[test]
fn dist_axis_placements() {
    // Pure horizontal gap of 4, then pure vertical gap of 5.
    let a = bound(0, 0, 10, 10);
    let right = bound(14, 0, 20, 10);
    let d = bound_to_bound_dist_sq(&a, &right).unwrap();
    assert!(d.eq_val(&Rat::from_int(16)));
    let below = bound(0, -15, 10, -5);
    let d2 = bound_to_bound_dist_sq(&a, &below).unwrap();
    assert!(d2.eq_val(&Rat::from_int(25)));
}

#[test]
fn dist_overlapping_boxes_is_zero() {
    let a = bound(0, 0, 10, 10);
    let b = bound(5, 5, 15, 15);
    let d = bound_to_bound_dist_sq(&a, &b).unwrap();
    assert!(d.eq_val(&Rat::from_int(0)));
    // Touching counts as distance zero too.
    let c = bound(10, 0, 20, 10);
    let dt = bound_to_bound_dist_sq(&a, &c).unwrap();
    assert!(dt.eq_val(&Rat::from_int(0)));
}

#[test]
fn dist_self_is_zero() {
    let a = bound(-3, 7, 12, 9);
    let d = bound_to_bound_dist_sq(&a, &a).unwrap();
    assert!(d.eq_val(&Rat::from_int(0)));
}

#[test]
fn dist_is_symmetric() {
    let a = bound(0, 0, 1, 1);
    let b = bound(3, 4, 5, 6);
    let ab = bound_to_bound_dist_sq(&a, &b).unwrap();
    let ba = bound_to_bound_dist_sq(&b, &a).unwrap();
    assert!(ab.eq_val(&ba));
    let c = bound(-10, -10, -2, 30);
    let ac = bound_to_bound_dist_sq(&a, &c).unwrap();
    let ca = bound_to_bound_dist_sq(&c, &a).unwrap();
    assert!(ac.eq_val(&ca));
}
