//! Exact rational arithmetic.
//!
//! Coordinates are exact rationals: an executable value [`Rat`] is a pair of
//! `i64`s with a positive denominator, and its mathematical meaning is the
//! ghost pair [`Rational`] of unbounded integers.  Every arithmetic operation
//! either returns the exact result or reports that it does not fit the
//! executable representation; nothing is ever rounded.

use vstd::prelude::*;

verus! {

/// Mathematical value of a rational: the fraction `num / den`, meaningful
/// when `den > 0`.
pub struct Rational {
    pub num: int,
    pub den: int,
}

/// A magnitude representable by the executable type: `|x| <= i64::MAX`.
pub open spec fn fits(x: int) -> bool {
    -0x7fff_ffff_ffff_ffff <= x <= 0x7fff_ffff_ffff_ffff
}

/// A rational value is meaningful when its denominator is positive.
pub open spec fn rational_wf(q: Rational) -> bool {
    q.den > 0
}

/// Both components fit the executable representation.
pub open spec fn rat_fits(q: Rational) -> bool {
    fits(q.num) && fits(q.den)
}

/// `a == b` as fractions: cross multiplication.
pub open spec fn rat_eq_q(a: Rational, b: Rational) -> bool {
    a.num * b.den == b.num * a.den
}

/// `a <= b` as fractions (denominators positive).
pub open spec fn rat_le_q(a: Rational, b: Rational) -> bool {
    a.num * b.den <= b.num * a.den
}

/// `a < b` as fractions (denominators positive).
pub open spec fn rat_lt_q(a: Rational, b: Rational) -> bool {
    a.num * b.den < b.num * a.den
}

pub open spec fn rat_add_q(a: Rational, b: Rational) -> Rational {
    Rational { num: a.num * b.den + b.num * a.den, den: a.den * b.den }
}

pub open spec fn rat_sub_q(a: Rational, b: Rational) -> Rational {
    Rational { num: a.num * b.den - b.num * a.den, den: a.den * b.den }
}

pub open spec fn rat_mul_q(a: Rational, b: Rational) -> Rational {
    Rational { num: a.num * b.num, den: a.den * b.den }
}

/// `a / b`, with the sign carried by the numerator so that the denominator
/// stays positive.  Meaningful only when `b.num != 0`.
pub open spec fn rat_div_q(a: Rational, b: Rational) -> Rational {
    if b.num >= 0 {
        Rational { num: a.num * b.den, den: a.den * b.num }
    } else {
        Rational { num: -(a.num * b.den), den: -(a.den * b.num) }
    }
}

pub open spec fn rat_neg_q(a: Rational) -> Rational {
    Rational { num: -a.num, den: a.den }
}

pub open spec fn rat_abs_q(a: Rational) -> Rational {
    if a.num < 0 {
        rat_neg_q(a)
    } else {
        a
    }
}

pub open spec fn rat_from_int(n: int) -> Rational {
    Rational { num: n, den: 1 }
}

/// Executable exact rational: `num / den` with `den > 0` and
/// `num > i64::MIN`, so the negation of every value is representable too.
#[derive(Clone, Copy, Debug)]
pub struct Rat {
    pub num: i64,
    pub den: i64,
}

impl View for Rat {
    type V = Rational;

    open spec fn view(&self) -> Rational {
        Rational { num: self.num as int, den: self.den as int }
    }
}

/// Widening product of two `i64`s, computed exactly in `i128`.
fn wide_mul(a: i64, b: i64) -> (r: i128)
    ensures
        r == a * b,
{
    proof {
        assert(-0x4000_0000_0000_0000_0000_0000_0000_0000 <= (a as int) * (b as int)
            <= 0x4000_0000_0000_0000_0000_0000_0000_0000) by (nonlinear_arith);
    }
    (a as i128) * (b as i128)
}

impl Rat {
    /// The executable invariant: positive denominator, negatable numerator.
    pub open spec fn wf(self) -> bool {
        self.den > 0 && -0x7fff_ffff_ffff_ffff <= self.num
    }

    /// The integer `n` as a rational.
    pub fn from_int(n: i64) -> (r: Rat)
        requires
            -0x7fff_ffff_ffff_ffff <= n,
        ensures
            r.wf(),
            r@ == rat_from_int(n as int),
    {
        Rat { num: n, den: 1 }
    }

    /// The fraction `num / den`, brought to a positive denominator.
    /// `None` exactly when `den` is zero or a component cannot be negated.
    pub fn new(num: i64, den: i64) -> (r: Option<Rat>)
        ensures
            match r {
                Some(v) => {
                    &&& v.wf()
                    &&& den != 0
                    &&& rat_eq_q(v@, Rational { num: num as int, den: den as int })
                },
                None => den == 0 || num == i64::MIN || den == i64::MIN,
            },
            r is None <==> (den == 0 || num == i64::MIN || den == i64::MIN),
    {
        if den == 0 || num == i64::MIN {
            None
        } else if den > 0 {
            Some(Rat { num, den })
        } else if den == i64::MIN {
            None
        } else {
            proof {
                assert((-num as int) * (den as int) == (num as int) * (-den as int))
                    by (nonlinear_arith);
            }
            Some(Rat { num: -num, den: -den })
        }
    }

    /// Checked exact addition.
    pub fn checked_add(&self, other: &Rat) -> (r: Option<Rat>)
        requires
            self.wf(),
            other.wf(),
        ensures
            match r {
                Some(v) => v.wf() && v@ == rat_add_q(self@, other@),
                None => !rat_fits(rat_add_q(self@, other@)),
            },
            r is Some <==> rat_fits(rat_add_q(self@, other@)),
    {
        let n1: i128 = wide_mul(self.num, other.den);
        let n2: i128 = wide_mul(other.num, self.den);
        let d: i128 = wide_mul(self.den, other.den);
        proof {
            assert(-0x3fff_ffff_ffff_ffff_0000_0000_0000_0001 <= n1
                <= 0x3fff_ffff_ffff_ffff_0000_0000_0000_0001) by (nonlinear_arith)
                requires
                    n1 == self.num * other.den,
                    -0x7fff_ffff_ffff_ffff <= self.num <= 0x7fff_ffff_ffff_ffff,
                    1 <= other.den <= 0x7fff_ffff_ffff_ffff,
            ;
            assert(-0x3fff_ffff_ffff_ffff_0000_0000_0000_0001 <= n2
                <= 0x3fff_ffff_ffff_ffff_0000_0000_0000_0001) by (nonlinear_arith)
                requires
                    n2 == other.num * self.den,
                    -0x7fff_ffff_ffff_ffff <= other.num <= 0x7fff_ffff_ffff_ffff,
                    1 <= self.den <= 0x7fff_ffff_ffff_ffff,
            ;
            assert(1 <= d) by (nonlinear_arith)
                requires
                    d == self.den * other.den,
                    1 <= self.den,
                    1 <= other.den,
            ;
        }
        let num: i128 = n1 + n2;
        if -0x7fff_ffff_ffff_ffff <= num && num <= 0x7fff_ffff_ffff_ffff
            && d <= 0x7fff_ffff_ffff_ffff {
            Some(Rat { num: num as i64, den: d as i64 })
        } else {
            None
        }
    }

    /// Checked exact subtraction.
    pub fn checked_sub(&self, other: &Rat) -> (r: Option<Rat>)
        requires
            self.wf(),
            other.wf(),
        ensures
            match r {
                Some(v) => v.wf() && v@ == rat_sub_q(self@, other@),
                None => !rat_fits(rat_sub_q(self@, other@)),
            },
            r is Some <==> rat_fits(rat_sub_q(self@, other@)),
    {
        let n1: i128 = wide_mul(self.num, other.den);
        let n2: i128 = wide_mul(other.num, self.den);
        let d: i128 = wide_mul(self.den, other.den);
        proof {
            assert(-0x3fff_ffff_ffff_ffff_0000_0000_0000_0001 <= n1
                <= 0x3fff_ffff_ffff_ffff_0000_0000_0000_0001) by (nonlinear_arith)
                requires
                    n1 == self.num * other.den,
                    -0x7fff_ffff_ffff_ffff <= self.num <= 0x7fff_ffff_ffff_ffff,
                    1 <= other.den <= 0x7fff_ffff_ffff_ffff,
            ;
            assert(-0x3fff_ffff_ffff_ffff_0000_0000_0000_0001 <= n2
                <= 0x3fff_ffff_ffff_ffff_0000_0000_0000_0001) by (nonlinear_arith)
                requires
                    n2 == other.num * self.den,
                    -0x7fff_ffff_ffff_ffff <= other.num <= 0x7fff_ffff_ffff_ffff,
                    1 <= self.den <= 0x7fff_ffff_ffff_ffff,
            ;
            assert(1 <= d) by (nonlinear_arith)
                requires
                    d == self.den * other.den,
                    1 <= self.den,
                    1 <= other.den,
            ;
        }
        let num: i128 = n1 - n2;
        if -0x7fff_ffff_ffff_ffff <= num && num <= 0x7fff_ffff_ffff_ffff
            && d <= 0x7fff_ffff_ffff_ffff {
            Some(Rat { num: num as i64, den: d as i64 })
        } else {
            None
        }
    }

    /// Checked exact multiplication.
    pub fn checked_mul(&self, other: &Rat) -> (r: Option<Rat>)
        requires
            self.wf(),
            other.wf(),
        ensures
            match r {
                Some(v) => v.wf() && v@ == rat_mul_q(self@, other@),
                None => !rat_fits(rat_mul_q(self@, other@)),
            },
            r is Some <==> rat_fits(rat_mul_q(self@, other@)),
    {
        let num: i128 = wide_mul(self.num, other.num);
        let d: i128 = wide_mul(self.den, other.den);
        proof {
            assert(1 <= d) by (nonlinear_arith)
                requires
                    d == self.den * other.den,
                    1 <= self.den,
                    1 <= other.den,
            ;
        }
        if -0x7fff_ffff_ffff_ffff <= num && num <= 0x7fff_ffff_ffff_ffff
            && d <= 0x7fff_ffff_ffff_ffff {
            Some(Rat { num: num as i64, den: d as i64 })
        } else {
            None
        }
    }

    /// Checked exact division; the divisor must be non-zero.
    pub fn checked_div(&self, other: &Rat) -> (r: Option<Rat>)
        requires
            self.wf(),
            other.wf(),
            other@.num != 0,
        ensures
            match r {
                Some(v) => v.wf() && v@ == rat_div_q(self@, other@),
                None => !rat_fits(rat_div_q(self@, other@)),
            },
            r is Some <==> rat_fits(rat_div_q(self@, other@)),
    {
        let num0: i128 = wide_mul(self.num, other.den);
        let d0: i128 = wide_mul(self.den, other.num);
        proof {
            assert(other.num > 0 ==> d0 >= 1) by (nonlinear_arith)
                requires
                    d0 == self.den * other.num,
                    1 <= self.den,
            ;
            assert(other.num < 0 ==> d0 <= -1) by (nonlinear_arith)
                requires
                    d0 == self.den * other.num,
                    1 <= self.den,
            ;
            assert(-0x3fff_ffff_ffff_ffff_0000_0000_0000_0001 <= num0
                <= 0x3fff_ffff_ffff_ffff_0000_0000_0000_0001) by (nonlinear_arith)
                requires
                    num0 == self.num * other.den,
                    -0x7fff_ffff_ffff_ffff <= self.num <= 0x7fff_ffff_ffff_ffff,
                    1 <= other.den <= 0x7fff_ffff_ffff_ffff,
            ;
            assert(-0x3fff_ffff_ffff_ffff_0000_0000_0000_0001 <= d0
                <= 0x3fff_ffff_ffff_ffff_0000_0000_0000_0001) by (nonlinear_arith)
                requires
                    d0 == self.den * other.num,
                    1 <= self.den <= 0x7fff_ffff_ffff_ffff,
                    -0x7fff_ffff_ffff_ffff <= other.num <= 0x7fff_ffff_ffff_ffff,
            ;
        }
        let (num, d): (i128, i128) = if d0 < 0 {
            (-num0, -d0)
        } else {
            (num0, d0)
        };
        if -0x7fff_ffff_ffff_ffff <= num && num <= 0x7fff_ffff_ffff_ffff
            && d <= 0x7fff_ffff_ffff_ffff {
            Some(Rat { num: num as i64, den: d as i64 })
        } else {
            None
        }
    }

    /// Exact absolute value; always representable thanks to `wf`.
    pub fn abs(&self) -> (r: Rat)
        requires
            self.wf(),
        ensures
            r.wf(),
            r@ == rat_abs_q(self@),
    {
        if self.num < 0 {
            Rat { num: -self.num, den: self.den }
        } else {
            *self
        }
    }

    /// Decides `self <= other` as fractions.
    pub fn le(&self, other: &Rat) -> (r: bool)
        requires
            self.wf(),
            other.wf(),
        ensures
            r == rat_le_q(self@, other@),
    {
        wide_mul(self.num, other.den) <= wide_mul(other.num, self.den)
    }

    /// Decides `self < other` as fractions.
    pub fn lt(&self, other: &Rat) -> (r: bool)
        requires
            self.wf(),
            other.wf(),
        ensures
            r == rat_lt_q(self@, other@),
    {
        wide_mul(self.num, other.den) < wide_mul(other.num, self.den)
    }

    /// Decides `self == other` as fractions.
    pub fn eq_val(&self, other: &Rat) -> (r: bool)
        requires
            self.wf(),
            other.wf(),
        ensures
            r == rat_eq_q(self@, other@),
    {
        wide_mul(self.num, other.den) == wide_mul(other.num, self.den)
    }
}

/// Decides `hi - lo < k` exactly for a non-negative integer `k`, without
/// needing the difference itself to be representable.
pub fn diff_below_int(lo: &Rat, hi: &Rat, k: i64) -> (r: bool)
    requires
        lo.wf(),
        hi.wf(),
        0 <= k,
    ensures
        r == rat_lt_q(rat_sub_q(hi@, lo@), rat_from_int(k as int)),
{
    let n1: i128 = wide_mul(hi.num, lo.den);
    let n2: i128 = wide_mul(lo.num, hi.den);
    let den: i128 = wide_mul(hi.den, lo.den);
    proof {
        assert(-0x3fff_ffff_ffff_ffff_0000_0000_0000_0001 <= n1
            <= 0x3fff_ffff_ffff_ffff_0000_0000_0000_0001) by (nonlinear_arith)
            requires
                n1 == hi.num * lo.den,
                -0x7fff_ffff_ffff_ffff <= hi.num <= 0x7fff_ffff_ffff_ffff,
                1 <= lo.den <= 0x7fff_ffff_ffff_ffff,
        ;
        assert(-0x3fff_ffff_ffff_ffff_0000_0000_0000_0001 <= n2
            <= 0x3fff_ffff_ffff_ffff_0000_0000_0000_0001) by (nonlinear_arith)
            requires
                n2 == lo.num * hi.den,
                -0x7fff_ffff_ffff_ffff <= lo.num <= 0x7fff_ffff_ffff_ffff,
                1 <= hi.den <= 0x7fff_ffff_ffff_ffff,
        ;
        assert(1 <= den) by (nonlinear_arith)
            requires
                den == hi.den * lo.den,
                1 <= hi.den,
                1 <= lo.den,
        ;
    }
    let num: i128 = n1 - n2;
    match (k as i128).checked_mul(den) {
        Some(p) => num < p,
        None => {
            proof {
                assert((k as int) * (den as int) >= 0) by (nonlinear_arith)
                    requires
                        0 <= k,
                        1 <= den,
                ;
            }
            true
        },
    }
}

/// Ordering by `rat_le_q` is transitive.
pub proof fn lemma_rat_le_trans(a: Rational, b: Rational, c: Rational) by (nonlinear_arith)
    requires
        rational_wf(a),
        rational_wf(b),
        rational_wf(c),
        rat_le_q(a, b),
        rat_le_q(b, c),
    ensures
        rat_le_q(a, c),
{
}

/// Strict ordering chains with non-strict ordering.
pub proof fn lemma_rat_lt_le_trans(a: Rational, b: Rational, c: Rational) by (nonlinear_arith)
    requires
        rational_wf(a),
        rational_wf(b),
        rational_wf(c),
        rat_lt_q(a, b),
        rat_le_q(b, c),
    ensures
        rat_lt_q(a, c),
{
}

/// Non-strict ordering chains with strict ordering.
pub proof fn lemma_rat_le_lt_trans(a: Rational, b: Rational, c: Rational) by (nonlinear_arith)
    requires
        rational_wf(a),
        rational_wf(b),
        rational_wf(c),
        rat_le_q(a, b),
        rat_lt_q(b, c),
    ensures
        rat_lt_q(a, c),
{
}

/// Addition respects the ordering on both sides.
pub proof fn lemma_rat_add_mono(a: Rational, b: Rational, c: Rational, d: Rational)
    requires
        rational_wf(a),
        rational_wf(b),
        rational_wf(c),
        rational_wf(d),
        rat_le_q(a, b),
        rat_le_q(c, d),
    ensures
        rat_le_q(rat_add_q(a, c), rat_add_q(b, d)),
{
    assert((a.num * c.den + c.num * a.den) * (b.den * c.den) <= (b.num * c.den + c.num * b.den) * (
    a.den * c.den)) by (nonlinear_arith)
        requires
            a.num * b.den <= b.num * a.den,
            a.den > 0,
            b.den > 0,
            c.den > 0,
    ;
    assert((b.num * c.den + c.num * b.den) * (b.den * d.den) <= (b.num * d.den + d.num * b.den) * (
    b.den * c.den)) by (nonlinear_arith)
        requires
            c.num * d.den <= d.num * c.den,
            b.den > 0,
            c.den > 0,
            d.den > 0,
    ;
    lemma_rat_ops_wf(a, c);
    lemma_rat_ops_wf(b, c);
    lemma_rat_ops_wf(b, d);
    lemma_rat_le_trans(rat_add_q(a, c), rat_add_q(b, c), rat_add_q(b, d));
}

/// Subtraction grows with its first argument and shrinks with its second.
pub proof fn lemma_rat_sub_mono(a: Rational, b: Rational, c: Rational, d: Rational)
    requires
        rational_wf(a),
        rational_wf(b),
        rational_wf(c),
        rational_wf(d),
        rat_le_q(a, b),
        rat_le_q(d, c),
    ensures
        rat_le_q(rat_sub_q(a, c), rat_sub_q(b, d)),
{
    assert((a.num * c.den - c.num * a.den) * (b.den * c.den) <= (b.num * c.den - c.num * b.den) * (
    a.den * c.den)) by (nonlinear_arith)
        requires
            a.num * b.den <= b.num * a.den,
            a.den > 0,
            b.den > 0,
            c.den > 0,
    ;
    assert((b.num * c.den - c.num * b.den) * (b.den * d.den) <= (b.num * d.den - d.num * b.den) * (
    b.den * c.den)) by (nonlinear_arith)
        requires
            d.num * c.den <= c.num * d.den,
            b.den > 0,
            c.den > 0,
            d.den > 0,
    ;
    lemma_rat_ops_wf(a, c);
    lemma_rat_ops_wf(b, c);
    lemma_rat_ops_wf(b, d);
    lemma_rat_le_trans(rat_sub_q(a, c), rat_sub_q(b, c), rat_sub_q(b, d));
}

/// Squaring preserves the ordering of non-negative values.
pub proof fn lemma_rat_sq_mono(u: Rational, v: Rational) by (nonlinear_arith)
    requires
        rational_wf(u),
        rational_wf(v),
        rat_le_q(rat_from_int(0), u),
        rat_le_q(u, v),
    ensures
        rat_le_q(rat_mul_q(u, u), rat_mul_q(v, v)),
{
}

/// A square is never negative.
pub proof fn lemma_rat_sq_nonneg(u: Rational) by (nonlinear_arith)
    requires
        rational_wf(u),
    ensures
        rat_le_q(rat_from_int(0), rat_mul_q(u, u)),
{
}

/// Negation does not change a square.
pub proof fn lemma_rat_sq_neg(u: Rational) by (nonlinear_arith)
    ensures
        rat_mul_q(rat_neg_q(u), rat_neg_q(u)) == rat_mul_q(u, u),
{
}

/// Addition respects value equality on both sides.
pub proof fn lemma_rat_add_congr(a: Rational, b: Rational, c: Rational, d: Rational)
    requires
        rational_wf(a),
        rational_wf(b),
        rational_wf(c),
        rational_wf(d),
        rat_eq_q(a, b),
        rat_eq_q(c, d),
    ensures
        rat_eq_q(rat_add_q(a, c), rat_add_q(b, d)),
{
    lemma_rat_add_mono(a, b, c, d);
    lemma_rat_add_mono(b, a, d, c);
}

/// For `b <= a`, the absolute difference either way is the difference
/// `a - b`.
pub proof fn lemma_abs_diff(a: Rational, b: Rational)
    requires
        rational_wf(a),
        rational_wf(b),
        rat_le_q(b, a),
    ensures
        rational_wf(rat_sub_q(a, b)),
        rational_wf(rat_abs_q(rat_sub_q(a, b))),
        rational_wf(rat_abs_q(rat_sub_q(b, a))),
        rat_abs_q(rat_sub_q(a, b)) == rat_sub_q(a, b),
        rat_le_q(rat_abs_q(rat_sub_q(b, a)), rat_sub_q(a, b)),
        rat_le_q(rat_sub_q(a, b), rat_abs_q(rat_sub_q(b, a))),
{
    lemma_rat_ops_wf(a, b);
    lemma_rat_ops_wf(b, a);
    let d = rat_sub_q(a, b);
    let e = rat_sub_q(b, a);
    assert(b.den * a.den == a.den * b.den) by (nonlinear_arith);
    if e.num < 0 {
        assert(rat_abs_q(e) == rat_neg_q(e));
        assert(rat_neg_q(e).num == d.num);
        assert(rat_neg_q(e).num * d.den == d.num * rat_neg_q(e).den);
    }
}

/// The arithmetic operations keep denominators positive.
pub proof fn lemma_rat_ops_wf(a: Rational, b: Rational) by (nonlinear_arith)
    requires
        rational_wf(a),
        rational_wf(b),
    ensures
        rational_wf(rat_add_q(a, b)),
        rational_wf(rat_sub_q(a, b)),
        rational_wf(rat_mul_q(a, b)),
        b.num != 0 ==> rational_wf(rat_div_q(a, b)),
{
}

} // verus!
