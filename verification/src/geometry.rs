//! Geometry types: points, segments, axis-aligned bounds, and the axis
//! selector, together with the bounding-volume computation and the
//! per-axis point ordering used by a partitioning engine.

use core::cmp::Ordering;
use vstd::prelude::*;

use crate::rational::{
    rat_le_q, rat_lt_q, rational_wf, Rat, Rational,
};

verus! {

/// Selects which coordinate a cut or comparison applies to:
/// `Horizontal` selects `x`, `Vertical` selects `y`.
#[derive(Clone, Copy, Debug, PartialEq, Eq, Structural)]
pub enum Axis {
    Horizontal,
    Vertical,
}

/// The one failure of the oracle: an exact intermediate value left the
/// representable range.  Geometric degeneracies (parallel or degenerate
/// segments, empty point sequences, zero-area boxes) are never errors.
#[derive(Clone, Copy, Debug, PartialEq, Eq, Structural)]
pub enum GeometryError {
    NumericOverflow,
}

/// Mathematical value of a [`Point`].
pub struct PointQ {
    pub x: Rational,
    pub y: Rational,
}

/// Mathematical value of a [`Segment`].
pub struct SegmentQ {
    pub src: PointQ,
    pub dst: PointQ,
}

/// Mathematical value of a [`Bound`].
pub struct BoundQ {
    pub lt: PointQ,
    pub rb: PointQ,
}

pub open spec fn point_wf_q(p: PointQ) -> bool {
    rational_wf(p.x) && rational_wf(p.y)
}

pub open spec fn segment_wf_q(s: SegmentQ) -> bool {
    point_wf_q(s.src) && point_wf_q(s.dst)
}

/// A bound is an axis-aligned box: `lt` is the minimum corner, `rb` the
/// maximum corner.
pub open spec fn bound_wf_q(b: BoundQ) -> bool {
    point_wf_q(b.lt) && point_wf_q(b.rb) && rat_le_q(b.lt.x, b.rb.x) && rat_le_q(b.lt.y, b.rb.y)
}

/// The point lies inside the box (boundary included).
pub open spec fn bound_contains_q(b: BoundQ, p: PointQ) -> bool {
    &&& rat_le_q(b.lt.x, p.x)
    &&& rat_le_q(p.x, b.rb.x)
    &&& rat_le_q(b.lt.y, p.y)
    &&& rat_le_q(p.y, b.rb.y)
}

/// A point of the rational plane.
#[derive(Clone, Copy, Debug)]
pub struct Point {
    pub x: Rat,
    pub y: Rat,
}

impl View for Point {
    type V = PointQ;

    open spec fn view(&self) -> PointQ {
        PointQ { x: self.x@, y: self.y@ }
    }
}

impl Point {
    pub open spec fn wf(self) -> bool {
        self.x.wf() && self.y.wf()
    }
}

/// A line segment between two points; it may be degenerate (equal
/// endpoints) or axis-parallel.
#[derive(Clone, Copy, Debug)]
pub struct Segment {
    pub src: Point,
    pub dst: Point,
}

impl View for Segment {
    type V = SegmentQ;

    open spec fn view(&self) -> SegmentQ {
        SegmentQ { src: self.src@, dst: self.dst@ }
    }
}

impl Segment {
    pub open spec fn wf(self) -> bool {
        self.src.wf() && self.dst.wf()
    }
}

/// An axis-aligned box: minimum corner `lt`, maximum corner `rb`.
#[derive(Clone, Copy, Debug)]
pub struct Bound {
    pub lt: Point,
    pub rb: Point,
}

impl View for Bound {
    type V = BoundQ;

    open spec fn view(&self) -> BoundQ {
        BoundQ { lt: self.lt@, rb: self.rb@ }
    }
}

impl Bound {
    pub open spec fn wf(self) -> bool {
        self.lt.wf() && self.rb.wf() && bound_wf_q(self@)
    }

    /// The minimum corner.
    pub fn min_corner(&self) -> (r: Point)
        ensures
            r == self.lt,
    {
        self.lt
    }

    /// The maximum corner.
    pub fn max_corner(&self) -> (r: Point)
        ensures
            r == self.rb,
    {
        self.rb
    }
}

/// The tight axis-aligned bounding box of a segment: componentwise minimum
/// and maximum of the two endpoints.
pub open spec fn compute_bound_spec(s: SegmentQ) -> BoundQ {
    BoundQ {
        lt: PointQ {
            x: if rat_lt_q(s.src.x, s.dst.x) {
                s.src.x
            } else {
                s.dst.x
            },
            y: if rat_lt_q(s.src.y, s.dst.y) {
                s.src.y
            } else {
                s.dst.y
            },
        },
        rb: PointQ {
            x: if rat_lt_q(s.dst.x, s.src.x) {
                s.src.x
            } else {
                s.dst.x
            },
            y: if rat_lt_q(s.dst.y, s.src.y) {
                s.src.y
            } else {
                s.dst.y
            },
        },
    }
}

/// Computes the bounding volume of a segment.  Total: a degenerate segment
/// yields a zero-area box.
pub fn compute_bound(shape: &Segment) -> (r: Bound)
    requires
        shape.wf(),
    ensures
        r.wf(),
        r@ == compute_bound_spec(shape@),
{
    Bound {
        lt: Point {
            x: if shape.src.x.lt(&shape.dst.x) {
                shape.src.x
            } else {
                shape.dst.x
            },
            y: if shape.src.y.lt(&shape.dst.y) {
                shape.src.y
            } else {
                shape.dst.y
            },
        },
        rb: Point {
            x: if shape.dst.x.lt(&shape.src.x) {
                shape.src.x
            } else {
                shape.dst.x
            },
            y: if shape.dst.y.lt(&shape.src.y) {
                shape.src.y
            } else {
                shape.dst.y
            },
        },
    }
}

/// The bounding box contains both endpoints, and is minimal among the
/// axis-aligned boxes that do: any box containing both endpoints contains
/// the whole bounding box between its corners.
pub proof fn lemma_compute_bound_minimal(s: SegmentQ, c: BoundQ)
    requires
        segment_wf_q(s),
        point_wf_q(c.lt),
        point_wf_q(c.rb),
        bound_contains_q(c, s.src),
        bound_contains_q(c, s.dst),
    ensures
        bound_contains_q(compute_bound_spec(s), s.src),
        bound_contains_q(compute_bound_spec(s), s.dst),
        rat_le_q(c.lt.x, compute_bound_spec(s).lt.x),
        rat_le_q(c.lt.y, compute_bound_spec(s).lt.y),
        rat_le_q(compute_bound_spec(s).rb.x, c.rb.x),
        rat_le_q(compute_bound_spec(s).rb.y, c.rb.y),
{
}

/// The coordinate of a point that the axis selects.
pub open spec fn axis_coord_q(axis: Axis, p: PointQ) -> Rational {
    match axis {
        Axis::Horizontal => p.x,
        Axis::Vertical => p.y,
    }
}

/// The coordinate of a point on the other axis.
pub open spec fn other_coord_q(axis: Axis, p: PointQ) -> Rational {
    match axis {
        Axis::Horizontal => p.y,
        Axis::Vertical => p.x,
    }
}

/// Rebuilds a point from its coordinate `a` on the given axis and its
/// coordinate `o` on the other axis.
pub open spec fn make_point_q(axis: Axis, a: Rational, o: Rational) -> PointQ {
    match axis {
        Axis::Horizontal => PointQ { x: a, y: o },
        Axis::Vertical => PointQ { x: o, y: a },
    }
}

/// Selects the axis coordinate of a point.
pub fn axis_coord(axis: &Axis, p: &Point) -> (r: Rat)
    ensures
        r@ == axis_coord_q(*axis, p@),
        p.wf() ==> r.wf(),
{
    match axis {
        Axis::Horizontal => p.x,
        Axis::Vertical => p.y,
    }
}

/// Selects the off-axis coordinate of a point.
pub fn other_coord(axis: &Axis, p: &Point) -> (r: Rat)
    ensures
        r@ == other_coord_q(*axis, p@),
        p.wf() ==> r.wf(),
{
    match axis {
        Axis::Horizontal => p.y,
        Axis::Vertical => p.x,
    }
}

/// Rebuilds a point from an axis coordinate and an off-axis coordinate.
pub fn make_point(axis: &Axis, a: Rat, o: Rat) -> (r: Point)
    ensures
        r@ == make_point_q(*axis, a@, o@),
        a.wf() && o.wf() ==> r.wf(),
{
    match axis {
        Axis::Horizontal => Point { x: a, y: o },
        Axis::Vertical => Point { x: o, y: a },
    }
}

/// Orders two points by their coordinate on the given axis.
pub open spec fn cmp_points_spec(axis: Axis, a: PointQ, b: PointQ) -> Ordering {
    let ca = match axis {
        Axis::Horizontal => a.x,
        Axis::Vertical => a.y,
    };
    let cb = match axis {
        Axis::Horizontal => b.x,
        Axis::Vertical => b.y,
    };
    if rat_lt_q(ca, cb) {
        Ordering::Less
    } else if rat_lt_q(cb, ca) {
        Ordering::Greater
    } else {
        Ordering::Equal
    }
}

/// Compares two points along one axis, as a partitioning engine orders its
/// candidate points.
pub fn cmp_points(axis: &Axis, a: &Point, b: &Point) -> (r: Ordering)
    requires
        a.wf(),
        b.wf(),
    ensures
        r == cmp_points_spec(*axis, a@, b@),
{
    match axis {
        Axis::Horizontal => {
            if a.x.lt(&b.x) {
                Ordering::Less
            } else if b.x.lt(&a.x) {
                Ordering::Greater
            } else {
                Ordering::Equal
            }
        },
        Axis::Vertical => {
            if a.y.lt(&b.y) {
                Ordering::Less
            } else if b.y.lt(&a.y) {
                Ordering::Greater
            } else {
                Ordering::Equal
            }
        },
    }
}

} // verus!
