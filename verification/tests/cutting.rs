use kdseg::cutting::{cut_mark_segment, cut_point, CutInfo};
use kdseg::geometry::{Axis, GeometryError, Point};
use kdseg::rational::Rat;

fn pt(x: i64, y: i64) -> Point {
    Point { x: Rat::from_int(x), y: Rat::from_int(y) }
}

#[test]
fn cut_of_three_points_is_their_mean() {
    // x mean of 0, 10, 5 is exactly 5.
    let pts = vec![pt(0, 0), pt(10, 0), pt(5, 10)];
    let info = cut_point(&Axis::Horizontal, &pts).unwrap().unwrap();
    assert!(info.cut.x.eq_val(&Rat::from_int(5)));
    assert_eq!(info.cut.x.num as f64 / info.cut.x.den as f64, 5.0);
}

#[test]
fn cut_tracks_componentwise_extremes() {
    let pts = vec![pt(4, -1), pt(-2, 8), pt(3, 3)];
    let info = cut_point(&Axis::Vertical, &pts).unwrap().unwrap();
    assert!(info.min_point.x.eq_val(&Rat::from_int(-2)));
    assert!(info.min_point.y.eq_val(&Rat::from_int(-1)));
    assert!(info.max_point.x.eq_val(&Rat::from_int(4)));
    assert!(info.max_point.y.eq_val(&Rat::from_int(8)));
}

#[test]
fn cut_of_single_point_is_that_point() {
    let pts = vec![pt(7, 9)];
    let info = cut_point(&Axis::Horizontal, &pts).unwrap().unwrap();
    assert!(info.cut.x.eq_val(&Rat::from_int(7)));
    assert!(info.cut.y.eq_val(&Rat::from_int(9)));
    assert!(info.min_point.x.eq_val(&Rat::from_int(7)));
    assert!(info.max_point.y.eq_val(&Rat::from_int(9)));
}

#[test]
fn cut_of_no_points_is_none() {
    let pts: Vec<Point> = Vec::new();
    let r = cut_point(&Axis::Horizontal, &pts);
    assert!(matches!(r, Ok(None)));
}

#[test]
fn cut_mean_of_fractions_is_exact() {
    // Mean of 1/2 and 1/3 is 5/12.
    let pts = vec![
        Point { x: Rat::new(1, 2).unwrap(), y: Rat::from_int(0) },
        Point { x: Rat::new(1, 3).unwrap(), y: Rat::from_int(0) },
    ];
    let info = cut_point(&Axis::Horizontal, &pts).unwrap().unwrap();
    assert!(info.cut.x.eq_val(&Rat::new(5, 12).unwrap()));
}

#[test]
fn cut_overflow_is_reported() {
    let pts = vec![
        Point { x: Rat::new(1, 4_000_000_000).unwrap(), y: Rat::from_int(0) },
        Point { x: Rat::new(1, 4_000_000_001).unwrap(), y: Rat::from_int(0) },
    ];
    let r = cut_point(&Axis::Horizontal, &pts);
    assert!(matches!(r, Err(GeometryError::NumericOverflow)));
}

#[test]
fn cut_mark_spans_extremes() {
    let info = CutInfo { cut: pt(5, 6), min_point: pt(0, 1), max_point: pt(10, 11) };
    let h = cut_mark_segment(&Axis::Horizontal, &info);
    assert!(h.src.x.eq_val(&Rat::from_int(5)));
    assert!(h.src.y.eq_val(&Rat::from_int(1)));
    assert!(h.dst.x.eq_val(&Rat::from_int(5)));
    assert!(h.dst.y.eq_val(&Rat::from_int(11)));
    let v = cut_mark_segment(&Axis::Vertical, &info);
    assert!(v.src.x.eq_val(&Rat::from_int(0)));
    assert!(v.src.y.eq_val(&Rat::from_int(6)));
    assert!(v.dst.x.eq_val(&Rat::from_int(10)));
    assert!(v.dst.y.eq_val(&Rat::from_int(6)));
}
