//! Distance metrics used by nearest-neighbour pruning.
//!
//! The per-axis metric is the smaller of a box's two edge distances to a
//! cut coordinate; for coordinates beyond the box's extent that is exactly
//! the closest the box comes to them.  The box-to-box metric is the exact
//! minimum squared Euclidean distance: admissible and attained.  Squaring
//! preserves order; a caller that needs the distance itself takes a square
//! root outside the exact arithmetic.

use vstd::prelude::*;

use crate::geometry::{
    axis_coord_q, bound_contains_q, bound_wf_q, point_wf_q, Axis, Bound, BoundQ, GeometryError,
    Point, PointQ,
};
use crate::rational::{
    rat_abs_q, rat_add_q, rat_eq_q, rat_fits, rat_from_int, rat_le_q, rat_lt_q, rat_mul_q,
    rat_neg_q, rat_sub_q, rational_wf, Rat, Rational,
};

verus! {

/// The smallest distance, along the given axis alone, from any location in
/// the box to the cut coordinate: the smaller of the two edge distances.
pub open spec fn bound_to_point_dist_q(axis: Axis, b: BoundQ, p: PointQ) -> Rational {
    let l = rat_abs_q(rat_sub_q(axis_coord_q(axis, b.lt), axis_coord_q(axis, p)));
    let r = rat_abs_q(rat_sub_q(axis_coord_q(axis, b.rb), axis_coord_q(axis, p)));
    if rat_lt_q(l, r) {
        l
    } else {
        r
    }
}

/// Both edge differences fit the executable representation.
pub open spec fn bound_to_point_fits_q(axis: Axis, b: BoundQ, p: PointQ) -> bool {
    rat_fits(rat_sub_q(axis_coord_q(axis, b.lt), axis_coord_q(axis, p))) && rat_fits(
        rat_sub_q(axis_coord_q(axis, b.rb), axis_coord_q(axis, p)),
    )
}

/// Computes the per-axis lower-bound distance from a box to a cut
/// coordinate.
pub fn bound_to_point_dist(axis: &Axis, bound: &Bound, point: &Point) -> (r: Result<
    Rat,
    GeometryError,
>)
    requires
        bound.lt.wf(),
        bound.rb.wf(),
        point.wf(),
    ensures
        match r {
            Ok(v) => {
                &&& v.wf()
                &&& v@ == bound_to_point_dist_q(*axis, bound@, point@)
                &&& bound_to_point_fits_q(*axis, bound@, point@)
            },
            Err(e) => e == GeometryError::NumericOverflow && !bound_to_point_fits_q(
                *axis,
                bound@,
                point@,
            ),
        },
        r is Ok <==> bound_to_point_fits_q(*axis, bound@, point@),
{
    let lo = crate::geometry::axis_coord(axis, &bound.lt);
    let hi = crate::geometry::axis_coord(axis, &bound.rb);
    let pc = crate::geometry::axis_coord(axis, point);
    let dl = match lo.checked_sub(&pc) {
        Some(v) => v,
        None => {
            return Err(GeometryError::NumericOverflow);
        },
    };
    let dr = match hi.checked_sub(&pc) {
        Some(v) => v,
        None => {
            return Err(GeometryError::NumericOverflow);
        },
    };
    let al = dl.abs();
    let ar = dr.abs();
    if al.lt(&ar) {
        Ok(al)
    } else {
        Ok(ar)
    }
}

/// When the cut coordinate does not fall inside the box's extent on the
/// axis, the per-axis metric is the true minimum: it never exceeds the
/// axis distance from any location `w` within the box's extent to the cut
/// coordinate.
pub proof fn lemma_point_dist_admissible(axis: Axis, b: BoundQ, p: PointQ, w: Rational)
    requires
        bound_wf_q(b),
        point_wf_q(p),
        rational_wf(w),
        rat_le_q(axis_coord_q(axis, b.lt), w),
        rat_le_q(w, axis_coord_q(axis, b.rb)),
        rat_le_q(axis_coord_q(axis, p), axis_coord_q(axis, b.lt)) || rat_le_q(
            axis_coord_q(axis, b.rb),
            axis_coord_q(axis, p),
        ),
    ensures
        rat_le_q(
            bound_to_point_dist_q(axis, b, p),
            rat_abs_q(rat_sub_q(w, axis_coord_q(axis, p))),
        ),
{
    let lo = axis_coord_q(axis, b.lt);
    let hi = axis_coord_q(axis, b.rb);
    let c = axis_coord_q(axis, p);
    let d = bound_to_point_dist_q(axis, b, p);
    let al = rat_abs_q(rat_sub_q(lo, c));
    let ah = rat_abs_q(rat_sub_q(hi, c));
    if rat_le_q(c, lo) {
        crate::rational::lemma_rat_le_trans(c, lo, w);
        crate::rational::lemma_rat_le_trans(c, lo, hi);
        crate::rational::lemma_abs_diff(lo, c);
        crate::rational::lemma_abs_diff(hi, c);
        crate::rational::lemma_abs_diff(w, c);
        crate::rational::lemma_rat_sub_mono(lo, w, c, c);
        if !rat_lt_q(al, ah) {
            crate::rational::lemma_rat_le_trans(ah, al, rat_sub_q(w, c));
        }
    } else {
        crate::rational::lemma_rat_le_trans(w, hi, c);
        crate::rational::lemma_rat_le_trans(lo, hi, c);
        crate::rational::lemma_abs_diff(c, lo);
        crate::rational::lemma_abs_diff(c, hi);
        crate::rational::lemma_abs_diff(c, w);
        crate::rational::lemma_rat_sub_mono(c, c, hi, w);
        if rat_lt_q(al, ah) {
            crate::rational::lemma_rat_le_trans(al, ah, rat_sub_q(c, hi));
        }
        crate::rational::lemma_rat_le_trans(d, rat_sub_q(c, hi), rat_sub_q(c, w));
        crate::rational::lemma_rat_le_trans(d, rat_sub_q(c, w), rat_abs_q(rat_sub_q(w, c)));
    }
}

/// The gap between two intervals `[alo, ahi]` and `[blo, bhi]` of one
/// axis: how far apart they stand, zero when they touch or overlap.
pub open spec fn gap_1d_q(alo: Rational, ahi: Rational, blo: Rational, bhi: Rational) -> Rational {
    if rat_lt_q(bhi, alo) {
        rat_sub_q(alo, bhi)
    } else if rat_lt_q(ahi, blo) {
        rat_sub_q(blo, ahi)
    } else {
        rat_from_int(0)
    }
}

/// The horizontal gap between two boxes.
pub open spec fn gap_x_q(a: BoundQ, b: BoundQ) -> Rational {
    gap_1d_q(a.lt.x, a.rb.x, b.lt.x, b.rb.x)
}

/// The vertical gap between two boxes.
pub open spec fn gap_y_q(a: BoundQ, b: BoundQ) -> Rational {
    gap_1d_q(a.lt.y, a.rb.y, b.lt.y, b.rb.y)
}

/// The squared minimum Euclidean distance between two boxes: the sum of
/// the squared per-axis gaps.  Zero when the boxes touch or overlap on
/// both axes; a pure horizontal or vertical gap squared when they are
/// separated on one axis only; and the squared corner-to-corner distance
/// in the four diagonal placements, where both gaps are positive.
pub open spec fn bound_to_bound_dist_sq_q(a: BoundQ, b: BoundQ) -> Rational {
    rat_add_q(
        rat_mul_q(gap_x_q(a, b), gap_x_q(a, b)),
        rat_mul_q(gap_y_q(a, b), gap_y_q(a, b)),
    )
}

/// Every intermediate of the squared distance fits the executable
/// representation.
pub open spec fn bound_to_bound_fits_q(a: BoundQ, b: BoundQ) -> bool {
    let gx = gap_x_q(a, b);
    let gy = gap_y_q(a, b);
    rat_fits(gx) && rat_fits(gy) && rat_fits(rat_mul_q(gx, gx)) && rat_fits(rat_mul_q(gy, gy))
        && rat_fits(rat_add_q(rat_mul_q(gx, gx), rat_mul_q(gy, gy)))
}

/// Computes the squared minimum Euclidean distance between two boxes.
pub fn bound_to_bound_dist_sq(a: &Bound, b: &Bound) -> (r: Result<Rat, GeometryError>)
    requires
        a.wf(),
        b.wf(),
    ensures
        match r {
            Ok(v) => {
                &&& v.wf()
                &&& v@ == bound_to_bound_dist_sq_q(a@, b@)
                &&& bound_to_bound_fits_q(a@, b@)
            },
            Err(e) => e == GeometryError::NumericOverflow && !bound_to_bound_fits_q(a@, b@),
        },
        r is Ok <==> bound_to_bound_fits_q(a@, b@),
{
    let gx = if b.rb.x.lt(&a.lt.x) {
        match a.lt.x.checked_sub(&b.rb.x) {
            Some(v) => v,
            None => {
                return Err(GeometryError::NumericOverflow);
            },
        }
    } else if a.rb.x.lt(&b.lt.x) {
        match b.lt.x.checked_sub(&a.rb.x) {
            Some(v) => v,
            None => {
                return Err(GeometryError::NumericOverflow);
            },
        }
    } else {
        Rat::from_int(0)
    };
    let gy = if b.rb.y.lt(&a.lt.y) {
        match a.lt.y.checked_sub(&b.rb.y) {
            Some(v) => v,
            None => {
                return Err(GeometryError::NumericOverflow);
            },
        }
    } else if a.rb.y.lt(&b.lt.y) {
        match b.lt.y.checked_sub(&a.rb.y) {
            Some(v) => v,
            None => {
                return Err(GeometryError::NumericOverflow);
            },
        }
    } else {
        Rat::from_int(0)
    };
    let gx2 = match gx.checked_mul(&gx) {
        Some(v) => v,
        None => {
            return Err(GeometryError::NumericOverflow);
        },
    };
    let gy2 = match gy.checked_mul(&gy) {
        Some(v) => v,
        None => {
            return Err(GeometryError::NumericOverflow);
        },
    };
    match gx2.checked_add(&gy2) {
        Some(v) => Ok(v),
        None => Err(GeometryError::NumericOverflow),
    }
}

/// Squared Euclidean distance between two points.
pub open spec fn point_dist_sq_q(p: PointQ, q: PointQ) -> Rational {
    rat_add_q(
        rat_mul_q(rat_sub_q(p.x, q.x), rat_sub_q(p.x, q.x)),
        rat_mul_q(rat_sub_q(p.y, q.y), rat_sub_q(p.y, q.y)),
    )
}

/// The squared interval gap bounds the squared difference of any pair of
/// coordinates drawn from the two intervals.
proof fn lemma_gap_1d_le(
    alo: Rational,
    ahi: Rational,
    blo: Rational,
    bhi: Rational,
    u: Rational,
    v: Rational,
)
    requires
        rational_wf(alo),
        rational_wf(ahi),
        rational_wf(blo),
        rational_wf(bhi),
        rational_wf(u),
        rational_wf(v),
        rat_le_q(alo, u),
        rat_le_q(u, ahi),
        rat_le_q(blo, v),
        rat_le_q(v, bhi),
    ensures
        rational_wf(gap_1d_q(alo, ahi, blo, bhi)),
        rat_le_q(
            rat_mul_q(gap_1d_q(alo, ahi, blo, bhi), gap_1d_q(alo, ahi, blo, bhi)),
            rat_mul_q(rat_sub_q(u, v), rat_sub_q(u, v)),
        ),
{
    let g = gap_1d_q(alo, ahi, blo, bhi);
    let duv = rat_sub_q(u, v);
    crate::rational::lemma_rat_ops_wf(u, v);
    if rat_lt_q(bhi, alo) {
        crate::rational::lemma_rat_ops_wf(alo, bhi);
        crate::rational::lemma_rat_sub_mono(alo, u, bhi, v);
        crate::rational::lemma_rat_sq_mono(g, duv);
    } else if rat_lt_q(ahi, blo) {
        let dvu = rat_sub_q(v, u);
        crate::rational::lemma_rat_ops_wf(blo, ahi);
        crate::rational::lemma_rat_ops_wf(v, u);
        crate::rational::lemma_rat_sub_mono(blo, v, ahi, u);
        crate::rational::lemma_rat_sq_mono(g, dvu);
        assert(v.num * u.den - u.num * v.den == -(u.num * v.den - v.num * u.den));
        assert(v.den * u.den == u.den * v.den) by (nonlinear_arith);
        assert(dvu == rat_neg_q(duv));
        crate::rational::lemma_rat_sq_neg(duv);
    } else {
        crate::rational::lemma_rat_sq_nonneg(duv);
        assert(rat_mul_q(g, g).num == 0);
    }
}

/// Witness pair of coordinates, one from each interval, whose squared
/// difference equals the squared interval gap.
proof fn lemma_gap_1d_witness(alo: Rational, ahi: Rational, blo: Rational, bhi: Rational) -> (r: (
    Rational,
    Rational,
))
    requires
        rational_wf(alo),
        rational_wf(ahi),
        rational_wf(blo),
        rational_wf(bhi),
        rat_le_q(alo, ahi),
        rat_le_q(blo, bhi),
    ensures
        ({
            let (u, v) = r;
            &&& rational_wf(u)
            &&& rational_wf(v)
            &&& rat_le_q(alo, u)
            &&& rat_le_q(u, ahi)
            &&& rat_le_q(blo, v)
            &&& rat_le_q(v, bhi)
            &&& rat_eq_q(
                rat_mul_q(gap_1d_q(alo, ahi, blo, bhi), gap_1d_q(alo, ahi, blo, bhi)),
                rat_mul_q(rat_sub_q(u, v), rat_sub_q(u, v)),
            )
        }),
{
    let g = gap_1d_q(alo, ahi, blo, bhi);
    if rat_lt_q(bhi, alo) {
        crate::rational::lemma_rat_ops_wf(alo, bhi);
        (alo, bhi)
    } else if rat_lt_q(ahi, blo) {
        let duv = rat_sub_q(ahi, blo);
        crate::rational::lemma_rat_ops_wf(blo, ahi);
        crate::rational::lemma_rat_ops_wf(ahi, blo);
        assert(ahi.num * blo.den - blo.num * ahi.den == -(blo.num * ahi.den - ahi.num * blo.den));
        assert(ahi.den * blo.den == blo.den * ahi.den) by (nonlinear_arith);
        assert(duv == rat_neg_q(g));
        crate::rational::lemma_rat_sq_neg(g);
        (ahi, blo)
    } else {
        let w = if rat_le_q(alo, blo) {
            blo
        } else {
            alo
        };
        let dww = rat_sub_q(w, w);
        crate::rational::lemma_rat_ops_wf(w, w);
        assert(dww.num == 0);
        let gg = rat_mul_q(g, g);
        let dd = rat_mul_q(dww, dww);
        assert(gg.num * dd.den == dd.num * gg.den) by (nonlinear_arith)
            requires
                gg.num == g.num * g.num,
                g.num == 0,
                dd.num == dww.num * dww.num,
                dww.num == 0,
        ;
        (w, w)
    }
}

/// The squared box-to-box distance never overestimates: no pair of
/// locations, one in each box, lies closer than it.
pub proof fn lemma_dist_admissible(a: BoundQ, b: BoundQ, p: PointQ, q: PointQ)
    requires
        bound_wf_q(a),
        bound_wf_q(b),
        point_wf_q(p),
        point_wf_q(q),
        bound_contains_q(a, p),
        bound_contains_q(b, q),
    ensures
        rat_le_q(bound_to_bound_dist_sq_q(a, b), point_dist_sq_q(p, q)),
{
    let gx = gap_x_q(a, b);
    let gy = gap_y_q(a, b);
    let dx = rat_sub_q(p.x, q.x);
    let dy = rat_sub_q(p.y, q.y);
    lemma_gap_1d_le(a.lt.x, a.rb.x, b.lt.x, b.rb.x, p.x, q.x);
    lemma_gap_1d_le(a.lt.y, a.rb.y, b.lt.y, b.rb.y, p.y, q.y);
    crate::rational::lemma_rat_ops_wf(gx, gx);
    crate::rational::lemma_rat_ops_wf(gy, gy);
    crate::rational::lemma_rat_ops_wf(p.x, q.x);
    crate::rational::lemma_rat_ops_wf(p.y, q.y);
    crate::rational::lemma_rat_ops_wf(dx, dx);
    crate::rational::lemma_rat_ops_wf(dy, dy);
    crate::rational::lemma_rat_add_mono(
        rat_mul_q(gx, gx),
        rat_mul_q(dx, dx),
        rat_mul_q(gy, gy),
        rat_mul_q(dy, dy),
    );
}

/// The squared box-to-box distance is attained: some pair of locations,
/// one in each box, lies at exactly that squared distance.  Together with
/// `lemma_dist_admissible` this makes it the minimum squared Euclidean
/// distance between the two boxes.
pub proof fn lemma_dist_attained(a: BoundQ, b: BoundQ)
    requires
        bound_wf_q(a),
        bound_wf_q(b),
    ensures
        exists|pq: (PointQ, PointQ)|
            {
                &&& #[trigger] bound_contains_q(a, pq.0)
                &&& bound_contains_q(b, pq.1)
                &&& rat_eq_q(bound_to_bound_dist_sq_q(a, b), point_dist_sq_q(pq.0, pq.1))
            },
{
    let (ux, vx) = lemma_gap_1d_witness(a.lt.x, a.rb.x, b.lt.x, b.rb.x);
    let (uy, vy) = lemma_gap_1d_witness(a.lt.y, a.rb.y, b.lt.y, b.rb.y);
    let p = PointQ { x: ux, y: uy };
    let q = PointQ { x: vx, y: vy };
    let gx = gap_x_q(a, b);
    let gy = gap_y_q(a, b);
    let dx = rat_sub_q(p.x, q.x);
    let dy = rat_sub_q(p.y, q.y);
    lemma_gaps_wf(a, b);
    crate::rational::lemma_rat_ops_wf(gx, gx);
    crate::rational::lemma_rat_ops_wf(gy, gy);
    crate::rational::lemma_rat_ops_wf(p.x, q.x);
    crate::rational::lemma_rat_ops_wf(p.y, q.y);
    crate::rational::lemma_rat_ops_wf(dx, dx);
    crate::rational::lemma_rat_ops_wf(dy, dy);
    crate::rational::lemma_rat_add_congr(
        rat_mul_q(gx, gx),
        rat_mul_q(dx, dx),
        rat_mul_q(gy, gy),
        rat_mul_q(dy, dy),
    );
    let w = (p, q);
    assert(bound_contains_q(a, w.0) && bound_contains_q(b, w.1) && rat_eq_q(
        bound_to_bound_dist_sq_q(a, b),
        point_dist_sq_q(w.0, w.1),
    ));
}

/// The per-axis gaps are meaningful rationals.
proof fn lemma_gaps_wf(a: BoundQ, b: BoundQ)
    requires
        bound_wf_q(a),
        bound_wf_q(b),
    ensures
        rational_wf(gap_x_q(a, b)),
        rational_wf(gap_y_q(a, b)),
{
    if rat_lt_q(b.rb.x, a.lt.x) {
        crate::rational::lemma_rat_ops_wf(a.lt.x, b.rb.x);
    } else if rat_lt_q(a.rb.x, b.lt.x) {
        crate::rational::lemma_rat_ops_wf(b.lt.x, a.rb.x);
    }
    if rat_lt_q(b.rb.y, a.lt.y) {
        crate::rational::lemma_rat_ops_wf(a.lt.y, b.rb.y);
    } else if rat_lt_q(a.rb.y, b.lt.y) {
        crate::rational::lemma_rat_ops_wf(b.lt.y, a.rb.y);
    }
}

/// A box is at squared distance zero from itself.
pub proof fn lemma_dist_self_zero(a: BoundQ)
    requires
        bound_wf_q(a),
    ensures
        rat_eq_q(bound_to_bound_dist_sq_q(a, a), rat_from_int(0)),
{
}

/// The per-axis gaps do not depend on the order of the two boxes.
proof fn lemma_gaps_symmetric(a: BoundQ, b: BoundQ)
    requires
        bound_wf_q(a),
        bound_wf_q(b),
    ensures
        gap_x_q(a, b) == gap_x_q(b, a),
        gap_y_q(a, b) == gap_y_q(b, a),
{
    if rat_lt_q(b.rb.x, a.lt.x) && rat_lt_q(a.rb.x, b.lt.x) {
        crate::rational::lemma_rat_le_lt_trans(a.lt.x, a.rb.x, b.lt.x);
        crate::rational::lemma_rat_lt_le_trans(a.lt.x, b.lt.x, b.rb.x);
    }
    if rat_lt_q(b.rb.y, a.lt.y) && rat_lt_q(a.rb.y, b.lt.y) {
        crate::rational::lemma_rat_le_lt_trans(a.lt.y, a.rb.y, b.lt.y);
        crate::rational::lemma_rat_lt_le_trans(a.lt.y, b.lt.y, b.rb.y);
    }
}

/// The squared distance between two boxes is symmetric, and it overflows
/// for one order exactly when it overflows for the other.
pub proof fn lemma_dist_symmetric(a: BoundQ, b: BoundQ)
    requires
        bound_wf_q(a),
        bound_wf_q(b),
    ensures
        bound_to_bound_dist_sq_q(a, b) == bound_to_bound_dist_sq_q(b, a),
        bound_to_bound_fits_q(a, b) == bound_to_bound_fits_q(b, a),
{
    lemma_gaps_symmetric(a, b);
}

} // verus!
