//! Splitting a shape's bounding fragment in two at a cut coordinate.
//!
//! The splitter either declines (`Ok(None)`): the cut misses the fragment,
//! the fragment is already too thin on the cut axis, or the segment is
//! parallel to the cut axis, so interpolating along it is impossible --
//! or produces two children that slice the fragment at the cut coordinate,
//! each tightly bounding the part of the segment that crosses it.

use vstd::prelude::*;

use crate::geometry::{
    axis_coord_q, bound_contains_q, bound_wf_q, make_point_q, other_coord_q, point_wf_q,
    segment_wf_q, Axis, Bound, BoundQ, GeometryError, Point, PointQ, Segment, SegmentQ,
};
use crate::rational::{
    rat_add_q, rat_div_q, rat_eq_q, rat_fits, rat_from_int, rat_le_q, rat_lt_q, rat_mul_q,
    rat_sub_q, rational_wf, Rat, Rational,
};

verus! {

/// Minimum extent a fragment must have on the cut axis to be split further;
/// below it the fragment is terminal.  Bounds the depth of a tree built by
/// repeated splitting.
pub const CUT_LIMIT: i64 = 32;

/// The cut coordinate lies within the fragment's extent on the cut axis.
pub open spec fn cut_within_q(f: BoundQ, axis: Axis, c: PointQ) -> bool {
    &&& rat_le_q(axis_coord_q(axis, f.lt), axis_coord_q(axis, c))
    &&& rat_le_q(axis_coord_q(axis, c), axis_coord_q(axis, f.rb))
}

/// The fragment's extent on the cut axis is below the subdivision limit.
pub open spec fn extent_below_limit_q(f: BoundQ, axis: Axis) -> bool {
    rat_lt_q(
        rat_sub_q(axis_coord_q(axis, f.rb), axis_coord_q(axis, f.lt)),
        rat_from_int(CUT_LIMIT as int),
    )
}

/// The segment has zero extent on the cut axis, so a cut on that axis
/// cannot be interpolated along it.
pub open spec fn segment_parallel_q(s: SegmentQ, axis: Axis) -> bool {
    rat_eq_q(axis_coord_q(axis, s.src), axis_coord_q(axis, s.dst))
}

/// Where the segment crosses the cut plane `axis = c`: the off-axis
/// coordinate obtained by linear interpolation between the endpoints.
/// Meaningful only when the segment is not parallel to the cut axis.
pub open spec fn interp_coord_q(s: SegmentQ, axis: Axis, c: Rational) -> Rational {
    let sa = axis_coord_q(axis, s.src);
    let da = axis_coord_q(axis, s.dst);
    let so = other_coord_q(axis, s.src);
    let dd = other_coord_q(axis, s.dst);
    rat_add_q(so, rat_mul_q(rat_div_q(rat_sub_q(c, sa), rat_sub_q(da, sa)), rat_sub_q(dd, so)))
}

/// Every intermediate of the interpolation fits the executable
/// representation, in the order the splitter computes them.
pub open spec fn interp_fits_q(s: SegmentQ, axis: Axis, c: Rational) -> bool {
    let sa = axis_coord_q(axis, s.src);
    let da = axis_coord_q(axis, s.dst);
    let so = other_coord_q(axis, s.src);
    let dd = other_coord_q(axis, s.dst);
    let d1 = rat_sub_q(c, sa);
    let d2 = rat_sub_q(da, sa);
    let t = rat_div_q(d1, d2);
    let d3 = rat_sub_q(dd, so);
    let m = rat_mul_q(t, d3);
    let y0 = rat_add_q(so, m);
    rat_fits(d1) && rat_fits(d2) && rat_fits(t) && rat_fits(d3) && rat_fits(m) && rat_fits(y0)
}

/// The endpoint with the smaller coordinate on the cut axis.
pub open spec fn near_endpoint_q(s: SegmentQ, axis: Axis) -> PointQ {
    if rat_lt_q(axis_coord_q(axis, s.src), axis_coord_q(axis, s.dst)) {
        s.src
    } else {
        s.dst
    }
}

/// The endpoint with the larger coordinate on the cut axis.
pub open spec fn far_endpoint_q(s: SegmentQ, axis: Axis) -> PointQ {
    if rat_lt_q(axis_coord_q(axis, s.src), axis_coord_q(axis, s.dst)) {
        s.dst
    } else {
        s.src
    }
}

/// The two children of a split: the fragment sliced at the cut coordinate
/// on the cut axis, each child keeping on the off axis only the side of the
/// interpolated crossing that its endpoint lies on.
pub open spec fn split_children_q(s: SegmentQ, f: BoundQ, axis: Axis, c: PointQ) -> (
    BoundQ,
    BoundQ,
) {
    let ca = axis_coord_q(axis, c);
    let y0 = interp_coord_q(s, axis, ca);
    let np = other_coord_q(axis, near_endpoint_q(s, axis));
    let fp = other_coord_q(axis, far_endpoint_q(s, axis));
    let flo = axis_coord_q(axis, f.lt);
    let fhi = axis_coord_q(axis, f.rb);
    let olo = other_coord_q(axis, f.lt);
    let ohi = other_coord_q(axis, f.rb);
    let low = BoundQ {
        lt: make_point_q(
            axis,
            flo,
            if rat_lt_q(np, y0) {
                olo
            } else {
                y0
            },
        ),
        rb: make_point_q(
            axis,
            ca,
            if rat_lt_q(np, y0) {
                y0
            } else {
                ohi
            },
        ),
    };
    let high = BoundQ {
        lt: make_point_q(
            axis,
            ca,
            if rat_lt_q(fp, y0) {
                olo
            } else {
                y0
            },
        ),
        rb: make_point_q(
            axis,
            fhi,
            if rat_lt_q(fp, y0) {
                y0
            } else {
                ohi
            },
        ),
    };
    (low, high)
}

/// What the splitter returns, case by case, in the order the checks are
/// made: cut outside the fragment, fragment below the subdivision limit,
/// segment parallel to the cut axis -- each declines; then the interpolation
/// either overflows or yields the two children.
pub open spec fn split_fragment_spec(s: SegmentQ, f: BoundQ, axis: Axis, c: PointQ) -> Result<
    Option<(BoundQ, BoundQ)>,
    GeometryError,
> {
    if !cut_within_q(f, axis, c) {
        Ok(None)
    } else if extent_below_limit_q(f, axis) {
        Ok(None)
    } else if segment_parallel_q(s, axis) {
        Ok(None)
    } else if !interp_fits_q(s, axis, axis_coord_q(axis, c)) {
        Err(GeometryError::NumericOverflow)
    } else {
        Ok(Some(split_children_q(s, f, axis, c)))
    }
}

/// Splits a shape's bounding fragment at the cut coordinate on the given
/// axis, or declines; never fails on a parallel or degenerate segment.
pub fn split_fragment(shape: &Segment, fragment: &Bound, axis: &Axis, cut: &Point) -> (r: Result<
    Option<(Bound, Bound)>,
    GeometryError,
>)
    requires
        shape.wf(),
        fragment.wf(),
        cut.wf(),
    ensures
        ({
            let s = split_fragment_spec(shape@, fragment@, *axis, cut@);
            match r {
                Ok(None) => s == Ok::<Option<(BoundQ, BoundQ)>, GeometryError>(None),
                Ok(Some((lo, hi))) => {
                    &&& s == Ok::<Option<(BoundQ, BoundQ)>, GeometryError>(Some((lo@, hi@)))
                    &&& lo.lt.wf()
                    &&& lo.rb.wf()
                    &&& hi.lt.wf()
                    &&& hi.rb.wf()
                },
                Err(e) => s == Err::<Option<(BoundQ, BoundQ)>, GeometryError>(e),
            }
        }),
{
    let flo = crate::geometry::axis_coord(axis, &fragment.lt);
    let fhi = crate::geometry::axis_coord(axis, &fragment.rb);
    let ca = crate::geometry::axis_coord(axis, cut);
    if !(flo.le(&ca) && ca.le(&fhi)) {
        return Ok(None);
    }
    if crate::rational::diff_below_int(&flo, &fhi, CUT_LIMIT) {
        return Ok(None);
    }
    let sa = crate::geometry::axis_coord(axis, &shape.src);
    let da = crate::geometry::axis_coord(axis, &shape.dst);
    if sa.eq_val(&da) {
        return Ok(None);
    }
    let so = crate::geometry::other_coord(axis, &shape.src);
    let dd = crate::geometry::other_coord(axis, &shape.dst);
    let d1 = match ca.checked_sub(&sa) {
        Some(v) => v,
        None => {
            return Err(GeometryError::NumericOverflow);
        },
    };
    let d2 = match da.checked_sub(&sa) {
        Some(v) => v,
        None => {
            return Err(GeometryError::NumericOverflow);
        },
    };
    let t = match d1.checked_div(&d2) {
        Some(v) => v,
        None => {
            return Err(GeometryError::NumericOverflow);
        },
    };
    let d3 = match dd.checked_sub(&so) {
        Some(v) => v,
        None => {
            return Err(GeometryError::NumericOverflow);
        },
    };
    let m = match t.checked_mul(&d3) {
        Some(v) => v,
        None => {
            return Err(GeometryError::NumericOverflow);
        },
    };
    let y0 = match so.checked_add(&m) {
        Some(v) => v,
        None => {
            return Err(GeometryError::NumericOverflow);
        },
    };
    let olo = crate::geometry::other_coord(axis, &fragment.lt);
    let ohi = crate::geometry::other_coord(axis, &fragment.rb);
    let near_o = if sa.lt(&da) {
        crate::geometry::other_coord(axis, &shape.src)
    } else {
        crate::geometry::other_coord(axis, &shape.dst)
    };
    let far_o = if sa.lt(&da) {
        crate::geometry::other_coord(axis, &shape.dst)
    } else {
        crate::geometry::other_coord(axis, &shape.src)
    };
    let near_low = near_o.lt(&y0);
    let far_low = far_o.lt(&y0);
    let low = Bound {
        lt: crate::geometry::make_point(
            axis,
            flo,
            if near_low {
                olo
            } else {
                y0
            },
        ),
        rb: crate::geometry::make_point(
            axis,
            ca,
            if near_low {
                y0
            } else {
                ohi
            },
        ),
    };
    let high = Bound {
        lt: crate::geometry::make_point(
            axis,
            ca,
            if far_low {
                olo
            } else {
                y0
            },
        ),
        rb: crate::geometry::make_point(
            axis,
            fhi,
            if far_low {
                y0
            } else {
                ohi
            },
        ),
    };
    Ok(Some((low, high)))
}

/// The splitter declines -- and only declines -- when the cut coordinate lies
/// outside the fragment's extent on the cut axis, when that extent is below
/// the subdivision limit, or when the segment is parallel to the cut axis.
pub proof fn lemma_split_declines(s: SegmentQ, f: BoundQ, axis: Axis, c: PointQ)
    ensures
        split_fragment_spec(s, f, axis, c) == Ok::<Option<(BoundQ, BoundQ)>, GeometryError>(None)
            <==> (!cut_within_q(f, axis, c) || extent_below_limit_q(f, axis)
            || segment_parallel_q(s, axis)),
{
}

/// The interpolated crossing coordinate is a meaningful rational whenever
/// the segment is not parallel to the cut axis.
pub proof fn lemma_interp_wf(s: SegmentQ, axis: Axis, c: Rational)
    requires
        segment_wf_q(s),
        rational_wf(c),
        !segment_parallel_q(s, axis),
    ensures
        rational_wf(interp_coord_q(s, axis, c)),
{
    let sa = axis_coord_q(axis, s.src);
    let da = axis_coord_q(axis, s.dst);
    let so = other_coord_q(axis, s.src);
    let dd = other_coord_q(axis, s.dst);
    let d1 = rat_sub_q(c, sa);
    let d2 = rat_sub_q(da, sa);
    crate::rational::lemma_rat_ops_wf(c, sa);
    crate::rational::lemma_rat_ops_wf(da, sa);
    assert(d2.num != 0);
    crate::rational::lemma_rat_ops_wf(d1, d2);
    crate::rational::lemma_rat_ops_wf(dd, so);
    crate::rational::lemma_rat_ops_wf(rat_div_q(d1, d2), rat_sub_q(dd, so));
    crate::rational::lemma_rat_ops_wf(so, rat_mul_q(rat_div_q(d1, d2), rat_sub_q(dd, so)));
}

/// For a segment not parallel to the cut axis and a representable cut
/// strictly inside a fragment wide enough to split, the two children tile
/// the fragment's extent on the cut axis exactly: the low child runs from
/// the fragment's low edge to the cut coordinate, the high child from the
/// cut coordinate to the fragment's high edge, so their union restores the
/// fragment's extent and they overlap only on the cut line, and each child
/// is strictly smaller than the fragment on that axis.  When the
/// interpolated crossing lies within the fragment's off-axis extent, both
/// children are well-formed boxes lying within the fragment.
pub proof fn lemma_split_partition(s: SegmentQ, f: BoundQ, axis: Axis, c: PointQ)
    requires
        segment_wf_q(s),
        bound_wf_q(f),
        point_wf_q(c),
        rat_lt_q(axis_coord_q(axis, f.lt), axis_coord_q(axis, c)),
        rat_lt_q(axis_coord_q(axis, c), axis_coord_q(axis, f.rb)),
        !extent_below_limit_q(f, axis),
        !segment_parallel_q(s, axis),
        interp_fits_q(s, axis, axis_coord_q(axis, c)),
    ensures
        ({
            let (lo, hi) = split_children_q(s, f, axis, c);
            let y0 = interp_coord_q(s, axis, axis_coord_q(axis, c));
            &&& split_fragment_spec(s, f, axis, c) == Ok::<Option<(BoundQ, BoundQ)>, GeometryError>(
                Some((lo, hi)),
            )
            &&& axis_coord_q(axis, lo.lt) == axis_coord_q(axis, f.lt)
            &&& axis_coord_q(axis, lo.rb) == axis_coord_q(axis, c)
            &&& axis_coord_q(axis, hi.lt) == axis_coord_q(axis, c)
            &&& axis_coord_q(axis, hi.rb) == axis_coord_q(axis, f.rb)
            &&& rat_lt_q(axis_coord_q(axis, lo.lt), axis_coord_q(axis, lo.rb))
            &&& rat_lt_q(axis_coord_q(axis, hi.lt), axis_coord_q(axis, hi.rb))
            &&& forall|p: PointQ|
                #[trigger] bound_contains_q(lo, p) && bound_contains_q(hi, p) ==> rat_le_q(
                    axis_coord_q(axis, p),
                    axis_coord_q(axis, c),
                ) && rat_le_q(axis_coord_q(axis, c), axis_coord_q(axis, p))
            &&& (rat_le_q(other_coord_q(axis, f.lt), y0) && rat_le_q(
                y0,
                other_coord_q(axis, f.rb),
            )) ==> {
                &&& bound_wf_q(lo)
                &&& bound_wf_q(hi)
                &&& rat_le_q(other_coord_q(axis, f.lt), other_coord_q(axis, lo.lt))
                &&& rat_le_q(other_coord_q(axis, lo.rb), other_coord_q(axis, f.rb))
                &&& rat_le_q(other_coord_q(axis, f.lt), other_coord_q(axis, hi.lt))
                &&& rat_le_q(other_coord_q(axis, hi.rb), other_coord_q(axis, f.rb))
            }
        }),
{
    lemma_interp_wf(s, axis, axis_coord_q(axis, c));
}

} // verus!
