//! Choosing a cut coordinate for a fragment.
//!
//! The selector consumes the candidate points that contribute to a fragment
//! and picks the arithmetic mean of their coordinates, tracking alongside it
//! the componentwise extremes of the points seen, for visualisation
//! collaborators.  An empty sequence yields no cut: the fragment is a leaf.

use vstd::prelude::*;

use crate::geometry::{point_wf_q, Axis, GeometryError, Point, PointQ, Segment, SegmentQ};
use crate::rational::{
    rat_add_q, rat_div_q, rat_fits, rat_from_int, rat_le_q, rat_lt_q, rational_wf, Rat, Rational,
};

verus! {

/// Mathematical value of a [`CutInfo`].
pub struct CutInfoQ {
    pub cut: PointQ,
    pub min_point: PointQ,
    pub max_point: PointQ,
}

/// What a cut selection reports: the chosen cut point, whose coordinates
/// are the arithmetic means of the input coordinates, and the componentwise
/// minimum and maximum point seen.
#[derive(Clone, Copy, Debug)]
pub struct CutInfo {
    pub cut: Point,
    pub min_point: Point,
    pub max_point: Point,
}

impl View for CutInfo {
    type V = CutInfoQ;

    open spec fn view(&self) -> CutInfoQ {
        CutInfoQ { cut: self.cut@, min_point: self.min_point@, max_point: self.max_point@ }
    }
}

impl CutInfo {
    pub open spec fn wf(self) -> bool {
        self.cut.wf() && self.min_point.wf() && self.max_point.wf()
    }
}

/// Checked running sum of the `x` coordinates, in input order.
pub open spec fn sum_x_q(pts: Seq<PointQ>) -> Option<Rational>
    decreases pts.len(),
{
    if pts.len() == 0 {
        Some(rat_from_int(0))
    } else {
        match sum_x_q(pts.drop_last()) {
            Some(acc) => {
                let t = rat_add_q(acc, pts.last().x);
                if rat_fits(t) {
                    Some(t)
                } else {
                    None
                }
            },
            None => None,
        }
    }
}

/// Checked running sum of the `y` coordinates, in input order.
pub open spec fn sum_y_q(pts: Seq<PointQ>) -> Option<Rational>
    decreases pts.len(),
{
    if pts.len() == 0 {
        Some(rat_from_int(0))
    } else {
        match sum_y_q(pts.drop_last()) {
            Some(acc) => {
                let t = rat_add_q(acc, pts.last().y);
                if rat_fits(t) {
                    Some(t)
                } else {
                    None
                }
            },
            None => None,
        }
    }
}

/// Minimum of the `x` coordinates; on equal values the earliest wins.
pub open spec fn min_x_q(pts: Seq<PointQ>) -> Rational
    recommends
        pts.len() > 0,
    decreases pts.len(),
{
    if pts.len() <= 1 {
        pts[0].x
    } else {
        let m = min_x_q(pts.drop_last());
        if rat_lt_q(pts.last().x, m) {
            pts.last().x
        } else {
            m
        }
    }
}

/// Minimum of the `y` coordinates; on equal values the earliest wins.
pub open spec fn min_y_q(pts: Seq<PointQ>) -> Rational
    recommends
        pts.len() > 0,
    decreases pts.len(),
{
    if pts.len() <= 1 {
        pts[0].y
    } else {
        let m = min_y_q(pts.drop_last());
        if rat_lt_q(pts.last().y, m) {
            pts.last().y
        } else {
            m
        }
    }
}

/// Maximum of the `x` coordinates; on equal values the earliest wins.
pub open spec fn max_x_q(pts: Seq<PointQ>) -> Rational
    recommends
        pts.len() > 0,
    decreases pts.len(),
{
    if pts.len() <= 1 {
        pts[0].x
    } else {
        let m = max_x_q(pts.drop_last());
        if rat_lt_q(m, pts.last().x) {
            pts.last().x
        } else {
            m
        }
    }
}

/// Maximum of the `y` coordinates; on equal values the earliest wins.
pub open spec fn max_y_q(pts: Seq<PointQ>) -> Rational
    recommends
        pts.len() > 0,
    decreases pts.len(),
{
    if pts.len() <= 1 {
        pts[0].y
    } else {
        let m = max_y_q(pts.drop_last());
        if rat_lt_q(m, pts.last().y) {
            pts.last().y
        } else {
            m
        }
    }
}

/// What cut selection returns: no cut for an empty input; otherwise the
/// mean point and the componentwise extremes, or an overflow report when
/// the exact sums or means leave the representable range.
pub open spec fn cut_point_spec(pts: Seq<PointQ>) -> Result<Option<CutInfoQ>, GeometryError> {
    if pts.len() == 0 {
        Ok(None)
    } else {
        match (sum_x_q(pts), sum_y_q(pts)) {
            (Some(sx), Some(sy)) => {
                let n = rat_from_int(pts.len() as int);
                let mx = rat_div_q(sx, n);
                let my = rat_div_q(sy, n);
                if pts.len() <= 0x7fff_ffff_ffff_ffff && rat_fits(mx) && rat_fits(my) {
                    Ok(
                        Some(
                            CutInfoQ {
                                cut: PointQ { x: mx, y: my },
                                min_point: PointQ { x: min_x_q(pts), y: min_y_q(pts) },
                                max_point: PointQ { x: max_x_q(pts), y: max_y_q(pts) },
                            },
                        ),
                    )
                } else {
                    Err(GeometryError::NumericOverflow)
                }
            },
            _ => Err(GeometryError::NumericOverflow),
        }
    }
}

/// Exact running sum of the `x` coordinates, with no regard for
/// representability.
pub open spec fn sum_x_ideal_q(pts: Seq<PointQ>) -> Rational
    decreases pts.len(),
{
    if pts.len() == 0 {
        rat_from_int(0)
    } else {
        rat_add_q(sum_x_ideal_q(pts.drop_last()), pts.last().x)
    }
}

/// Exact running sum of the `y` coordinates, with no regard for
/// representability.
pub open spec fn sum_y_ideal_q(pts: Seq<PointQ>) -> Rational
    decreases pts.len(),
{
    if pts.len() == 0 {
        rat_from_int(0)
    } else {
        rat_add_q(sum_y_ideal_q(pts.drop_last()), pts.last().y)
    }
}

/// A checked sum that succeeds is the exact sum.
proof fn lemma_checked_sum_exact(pts: Seq<PointQ>)
    ensures
        match sum_x_q(pts) {
            Some(s) => s == sum_x_ideal_q(pts),
            None => true,
        },
        match sum_y_q(pts) {
            Some(s) => s == sum_y_ideal_q(pts),
            None => true,
        },
    decreases pts.len(),
{
    if pts.len() > 0 {
        lemma_checked_sum_exact(pts.drop_last());
    }
}

/// The selected cut coordinate is the arithmetic mean: on each component,
/// the exact sum of the input coordinates divided by their number.
pub proof fn lemma_cut_is_mean(pts: Seq<PointQ>)
    ensures
        match cut_point_spec(pts) {
            Ok(Some(info)) => {
                &&& info.cut.x == rat_div_q(sum_x_ideal_q(pts), rat_from_int(pts.len() as int))
                &&& info.cut.y == rat_div_q(sum_y_ideal_q(pts), rat_from_int(pts.len() as int))
            },
            _ => true,
        },
{
    lemma_checked_sum_exact(pts);
}

/// The componentwise extremes bound every input point.
pub proof fn lemma_extremes_bound(pts: Seq<PointQ>)
    requires
        pts.len() > 0,
        forall|i: int| 0 <= i < pts.len() ==> point_wf_q(#[trigger] pts[i]),
    ensures
        rational_wf(min_x_q(pts)),
        rational_wf(min_y_q(pts)),
        rational_wf(max_x_q(pts)),
        rational_wf(max_y_q(pts)),
        forall|i: int|
            0 <= i < pts.len() ==> rat_le_q(min_x_q(pts), #[trigger] pts[i].x) && rat_le_q(
                min_y_q(pts),
                pts[i].y,
            ) && rat_le_q(pts[i].x, max_x_q(pts)) && rat_le_q(pts[i].y, max_y_q(pts)),
    decreases pts.len(),
{
    if pts.len() > 1 {
        let prev = pts.drop_last();
        lemma_extremes_bound(prev);
        assert forall|i: int|
            0 <= i < pts.len() implies rat_le_q(min_x_q(pts), #[trigger] pts[i].x) && rat_le_q(
            min_y_q(pts),
            pts[i].y,
        ) && rat_le_q(pts[i].x, max_x_q(pts)) && rat_le_q(pts[i].y, max_y_q(pts)) by {
            if i < pts.len() - 1 {
                assert(prev[i] == pts[i]);
                if rat_lt_q(pts.last().x, min_x_q(prev)) {
                    crate::rational::lemma_rat_le_trans(min_x_q(pts), min_x_q(prev), pts[i].x);
                }
                if rat_lt_q(pts.last().y, min_y_q(prev)) {
                    crate::rational::lemma_rat_le_trans(min_y_q(pts), min_y_q(prev), pts[i].y);
                }
                if rat_lt_q(max_x_q(prev), pts.last().x) {
                    crate::rational::lemma_rat_le_trans(pts[i].x, max_x_q(prev), max_x_q(pts));
                }
                if rat_lt_q(max_y_q(prev), pts.last().y) {
                    crate::rational::lemma_rat_le_trans(pts[i].y, max_y_q(prev), max_y_q(pts));
                }
            }
        }
    }
}

/// Picks the cut point for a fragment: the componentwise arithmetic mean of
/// the candidate points, together with their componentwise extremes.
/// Returns no cut exactly when the input is empty.  The axis does not
/// change the result: both coordinates of the mean are computed, and a
/// caller reads the one its axis selects.
pub fn cut_point(_axis: &Axis, points: &Vec<Point>) -> (r: Result<
    Option<CutInfo>,
    GeometryError,
>)
    requires
        forall|i: int| 0 <= i < points@.len() ==> (#[trigger] points@[i]).wf(),
    ensures
        ({
            let pv = points@.map_values(|p: Point| p@);
            match r {
                Ok(None) => cut_point_spec(pv) == Ok::<Option<CutInfoQ>, GeometryError>(None),
                Ok(Some(info)) => {
                    &&& cut_point_spec(pv) == Ok::<Option<CutInfoQ>, GeometryError>(Some(info@))
                    &&& info.wf()
                    &&& forall|i: int|
                        0 <= i < pv.len() ==> rat_le_q(info@.min_point.x, #[trigger] pv[i].x)
                            && rat_le_q(info@.min_point.y, pv[i].y) && rat_le_q(
                            pv[i].x,
                            info@.max_point.x,
                        ) && rat_le_q(pv[i].y, info@.max_point.y)
                },
                Err(e) => cut_point_spec(pv) == Err::<Option<CutInfoQ>, GeometryError>(e),
            }
        }),
{
    let ghost pv = points@.map_values(|p: Point| p@);
    let n: usize = points.len();
    if n == 0 {
        return Ok(None);
    }
    let mut sum_x = Rat::from_int(0);
    let mut sum_y = Rat::from_int(0);
    let mut minx = points[0].x;
    let mut miny = points[0].y;
    let mut maxx = points[0].x;
    let mut maxy = points[0].y;
    let mut i: usize = 0;
    while i < n
        invariant
            n == points@.len(),
            0 <= i <= n,
            forall|j: int| 0 <= j < points@.len() ==> (#[trigger] points@[j]).wf(),
            pv == points@.map_values(|p: Point| p@),
            n > 0,
            sum_x.wf(),
            sum_y.wf(),
            minx.wf(),
            miny.wf(),
            maxx.wf(),
            maxy.wf(),
            sum_x_q(pv.subrange(0, i as int)) == Some(sum_x@),
            sum_y_q(pv.subrange(0, i as int)) == Some(sum_y@),
            i == 0 ==> minx == points@[0].x && miny == points@[0].y && maxx == points@[0].x
                && maxy == points@[0].y,
            i > 0 ==> minx@ == min_x_q(pv.subrange(0, i as int)) && miny@ == min_y_q(
                pv.subrange(0, i as int),
            ) && maxx@ == max_x_q(pv.subrange(0, i as int)) && maxy@ == max_y_q(
                pv.subrange(0, i as int),
            ),
        decreases n - i,
    {
        let p = points[i];
        proof {
            assert(pv.subrange(0, i + 1 as int).drop_last() =~= pv.subrange(0, i as int));
            assert(pv.subrange(0, i + 1 as int).last() == pv[i as int]);
            assert(pv[i as int] == points@[i as int]@);
        }
        sum_x = match sum_x.checked_add(&p.x) {
            Some(v) => v,
            None => {
                proof {
                    assert(sum_x_q(pv.subrange(0, i + 1 as int)) is None);
                    lemma_sum_x_none_propagates(pv, i + 1 as int);
                }
                return Err(GeometryError::NumericOverflow);
            },
        };
        sum_y = match sum_y.checked_add(&p.y) {
            Some(v) => v,
            None => {
                proof {
                    assert(sum_y_q(pv.subrange(0, i + 1 as int)) is None);
                    lemma_sum_y_none_propagates(pv, i + 1 as int);
                }
                return Err(GeometryError::NumericOverflow);
            },
        };
        if p.x.lt(&minx) {
            minx = p.x;
        }
        if p.y.lt(&miny) {
            miny = p.y;
        }
        if maxx.lt(&p.x) {
            maxx = p.x;
        }
        if maxy.lt(&p.y) {
            maxy = p.y;
        }
        proof {
            if i == 0 {
                assert(pv.subrange(0, 1) =~= seq![pv[0]]);
            }
        }
        i += 1;
    }
    proof {
        assert(pv.subrange(0, n as int) =~= pv);
    }
    if n as u64 > 0x7fff_ffff_ffff_ffffu64 {
        return Err(GeometryError::NumericOverflow);
    }
    let count = Rat::from_int(n as i64);
    let mx = match sum_x.checked_div(&count) {
        Some(v) => v,
        None => {
            return Err(GeometryError::NumericOverflow);
        },
    };
    let my = match sum_y.checked_div(&count) {
        Some(v) => v,
        None => {
            return Err(GeometryError::NumericOverflow);
        },
    };
    let info = CutInfo {
        cut: Point { x: mx, y: my },
        min_point: Point { x: minx, y: miny },
        max_point: Point { x: maxx, y: maxy },
    };
    proof {
        lemma_extremes_bound(pv);
    }
    Ok(Some(info))
}

/// The line a cut draws across a fragment, for visualisation: it runs at
/// the cut coordinate on the cut axis and spans the contributing points'
/// extent on the other axis.
pub open spec fn cut_mark_spec(axis: Axis, info: CutInfoQ) -> SegmentQ {
    match axis {
        Axis::Horizontal => SegmentQ {
            src: PointQ { x: info.cut.x, y: info.min_point.y },
            dst: PointQ { x: info.cut.x, y: info.max_point.y },
        },
        Axis::Vertical => SegmentQ {
            src: PointQ { x: info.min_point.x, y: info.cut.y },
            dst: PointQ { x: info.max_point.x, y: info.cut.y },
        },
    }
}

/// Builds the segment that marks a cut across the points it was chosen
/// from, as a visualisation collaborator draws it.
pub fn cut_mark_segment(axis: &Axis, info: &CutInfo) -> (r: Segment)
    requires
        info.wf(),
    ensures
        r.wf(),
        r@ == cut_mark_spec(*axis, info@),
{
    match axis {
        Axis::Horizontal => Segment {
            src: Point { x: info.cut.x, y: info.min_point.y },
            dst: Point { x: info.cut.x, y: info.max_point.y },
        },
        Axis::Vertical => Segment {
            src: Point { x: info.min_point.x, y: info.cut.y },
            dst: Point { x: info.max_point.x, y: info.cut.y },
        },
    }
}

/// Once a running sum has overflowed on a prefix, it has overflowed for the
/// whole sequence.
proof fn lemma_sum_x_none_propagates(pts: Seq<PointQ>, k: int)
    requires
        0 <= k <= pts.len(),
        sum_x_q(pts.subrange(0, k)) is None,
    ensures
        sum_x_q(pts) is None,
    decreases pts.len() - k,
{
    if k < pts.len() {
        assert(pts.subrange(0, k + 1).drop_last() =~= pts.subrange(0, k));
        lemma_sum_x_none_propagates(pts, k + 1);
    } else {
        assert(pts.subrange(0, k) =~= pts);
    }
}

/// Once a running sum has overflowed on a prefix, it has overflowed for the
/// whole sequence.
proof fn lemma_sum_y_none_propagates(pts: Seq<PointQ>, k: int)
    requires
        0 <= k <= pts.len(),
        sum_y_q(pts.subrange(0, k)) is None,
    ensures
        sum_y_q(pts) is None,
    decreases pts.len() - k,
{
    if k < pts.len() {
        assert(pts.subrange(0, k + 1).drop_last() =~= pts.subrange(0, k));
        lemma_sum_y_none_propagates(pts, k + 1);
    } else {
        assert(pts.subrange(0, k) =~= pts);
    }
}

} // verus!
