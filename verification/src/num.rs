//! Exact rational scalars.
//!
//! Every scalar quantity of the layout engine (sizes, percentages, cursor
//! coordinates, animation progress) is an exact fraction of two integers.
//! The specification-level model is `Rat`, a pair of unbounded integers with
//! a positive denominator; the executable representation is `Frac`, the same
//! pair held in `i128` fields kept within `WORKING_RANGE` so that every
//! product of two well-formed fields fits the machine word.
//!
//! Operations whose exact result would leave the working range return `None`
//! rather than rounding: the contracts state precisely when that happens.

use vstd::prelude::*;

verus! {

/// Largest magnitude that a well-formed numerator or denominator may take.
///
/// The bound is 2^60: the product of two well-formed fields stays below
/// 2^120, so any two-factor product and small sums of such products are
/// representable in `i128` with a wide margin.
pub const WORKING_RANGE: i128 = 0x1000_0000_0000_0000;

/// A rational number at the specification level: the value `n / d`.
pub ghost struct Rat {
    /// Numerator.
    pub n: int,
    /// Denominator; well-formed values keep it positive.
    pub d: int,
}

/// Whether a specification-level quantity lies within the working range.
pub open spec fn in_range(x: int) -> bool {
    -(WORKING_RANGE as int) <= x && x <= WORKING_RANGE as int
}

/// A well-formed rational has a positive denominator.
pub open spec fn rat_wf(a: Rat) -> bool {
    0 < a.d
}

/// Both components lie within the working range.
pub open spec fn rat_fits(a: Rat) -> bool {
    in_range(a.n) && in_range(a.d)
}

/// Exact product of two rationals, without reduction.
pub open spec fn rat_mul(a: Rat, b: Rat) -> Rat {
    Rat { n: a.n * b.n, d: a.d * b.d }
}

/// Exact sum of two rationals, without reduction.
pub open spec fn rat_add(a: Rat, b: Rat) -> Rat {
    Rat { n: a.n * b.d + b.n * a.d, d: a.d * b.d }
}

/// Exact difference of two rationals, without reduction.
pub open spec fn rat_sub(a: Rat, b: Rat) -> Rat {
    Rat { n: a.n * b.d - b.n * a.d, d: a.d * b.d }
}

/// Exact quotient of two rationals, with the sign moved into the numerator
/// so that the resulting denominator is positive whenever `b.n != 0`.
pub open spec fn rat_div(a: Rat, b: Rat) -> Rat {
    if b.n >= 0 {
        Rat { n: a.n * b.d, d: a.d * b.n }
    } else {
        Rat { n: -(a.n * b.d), d: -(a.d * b.n) }
    }
}

/// The two fractions denote the same value (cross multiplication).
pub open spec fn rat_eq(a: Rat, b: Rat) -> bool {
    a.n * b.d == b.n * a.d
}

/// `a <= b` as values; sound when both denominators are positive.
pub open spec fn rat_le(a: Rat, b: Rat) -> bool {
    a.n * b.d <= b.n * a.d
}

/// `a < b` as values; sound when both denominators are positive.
pub open spec fn rat_lt(a: Rat, b: Rat) -> bool {
    a.n * b.d < b.n * a.d
}

/// The integer `x` as a rational.
pub open spec fn int_rat(x: int) -> Rat {
    Rat { n: x, d: 1 }
}

/// Product of two values bounded by `m` is bounded by `m * m`.
pub proof fn lemma_mul_bound(a: int, b: int, m: int) by (nonlinear_arith)
    requires
        -m <= a <= m,
        -m <= b <= m,
        0 <= m,
    ensures
        -(m * m) <= a * b <= m * m,
{
}

/// Product of two values bounded by `m` and `k` is bounded by `m * k`.
pub proof fn lemma_mul_bound2(a: int, b: int, m: int, k: int) by (nonlinear_arith)
    requires
        -m <= a <= m,
        -k <= b <= k,
        0 <= m,
        0 <= k,
    ensures
        -(m * k) <= a * b <= m * k,
{
}

/// The product of two positive values is positive.
pub proof fn lemma_mul_pos(a: int, b: int) by (nonlinear_arith)
    requires
        0 < a,
        0 < b,
    ensures
        0 < a * b,
{
}

/// An exact fraction held in machine integers.
///
/// Well-formed values (`wf`) keep the denominator positive and both fields
/// within `WORKING_RANGE`; all operations preserve this.
#[derive(Clone, Copy, Debug, PartialEq, Eq, Structural)]
pub struct Frac {
    /// Numerator.
    pub num: i128,
    /// Denominator.
    pub den: i128,
}

impl View for Frac {
    type V = Rat;

    open spec fn view(&self) -> Rat {
        Rat { n: self.num as int, d: self.den as int }
    }
}

impl Frac {
    /// Positive denominator, both fields within the working range.
    pub open spec fn wf(&self) -> bool {
        0 < self.den && rat_fits(self@)
    }

    /// Builds the fraction `num / den`.
    pub fn new(num: i64, den: i64) -> (r: Frac)
        requires
            0 < den,
            in_range(num as int),
            in_range(den as int),
        ensures
            r.wf(),
            r@ == (Rat { n: num as int, d: den as int }),
    {
        Frac { num: num as i128, den: den as i128 }
    }

    /// The rational zero.
    pub fn zero() -> (r: Frac)
        ensures
            r.wf(),
            r@ == int_rat(0),
    {
        Frac { num: 0, den: 1 }
    }

    /// The rational one.
    pub fn one() -> (r: Frac)
        ensures
            r.wf(),
            r@ == int_rat(1),
    {
        Frac { num: 1, den: 1 }
    }

    /// Exact product; `None` exactly when the unreduced result leaves the
    /// working range.
    pub fn mul(self, other: Frac) -> (r: Option<Frac>)
        requires
            self.wf(),
            other.wf(),
        ensures
            r matches Some(f) ==> f.wf() && f@ == rat_mul(self@, other@),
            (r is Some) <==> rat_fits(rat_mul(self@, other@)),
    {
        proof {
            lemma_mul_bound(self.num as int, other.num as int, WORKING_RANGE as int);
            lemma_mul_bound(self.den as int, other.den as int, WORKING_RANGE as int);
            lemma_mul_pos(self.den as int, other.den as int);
        }
        let n = self.num * other.num;
        let d = self.den * other.den;
        if -WORKING_RANGE <= n && n <= WORKING_RANGE && d <= WORKING_RANGE {
            Some(Frac { num: n, den: d })
        } else {
            None
        }
    }

    /// Exact sum; `None` exactly when the unreduced result leaves the
    /// working range.
    pub fn add(self, other: Frac) -> (r: Option<Frac>)
        requires
            self.wf(),
            other.wf(),
        ensures
            r matches Some(f) ==> f.wf() && f@ == rat_add(self@, other@),
            (r is Some) <==> rat_fits(rat_add(self@, other@)),
    {
        proof {
            lemma_mul_bound(self.num as int, other.den as int, WORKING_RANGE as int);
            lemma_mul_bound(other.num as int, self.den as int, WORKING_RANGE as int);
            lemma_mul_bound(self.den as int, other.den as int, WORKING_RANGE as int);
            lemma_mul_pos(self.den as int, other.den as int);
        }
        let n = self.num * other.den + other.num * self.den;
        let d = self.den * other.den;
        if -WORKING_RANGE <= n && n <= WORKING_RANGE && d <= WORKING_RANGE {
            Some(Frac { num: n, den: d })
        } else {
            None
        }
    }

    /// Exact difference; `None` exactly when the unreduced result leaves the
    /// working range.
    pub fn sub(self, other: Frac) -> (r: Option<Frac>)
        requires
            self.wf(),
            other.wf(),
        ensures
            r matches Some(f) ==> f.wf() && f@ == rat_sub(self@, other@),
            (r is Some) <==> rat_fits(rat_sub(self@, other@)),
    {
        proof {
            lemma_mul_bound(self.num as int, other.den as int, WORKING_RANGE as int);
            lemma_mul_bound(other.num as int, self.den as int, WORKING_RANGE as int);
            lemma_mul_bound(self.den as int, other.den as int, WORKING_RANGE as int);
            lemma_mul_pos(self.den as int, other.den as int);
        }
        let n = self.num * other.den - other.num * self.den;
        let d = self.den * other.den;
        if -WORKING_RANGE <= n && n <= WORKING_RANGE && d <= WORKING_RANGE {
            Some(Frac { num: n, den: d })
        } else {
            None
        }
    }

    /// Exact quotient; `None` exactly when the divisor is zero or the
    /// unreduced result leaves the working range.
    pub fn div(self, other: Frac) -> (r: Option<Frac>)
        requires
            self.wf(),
            other.wf(),
        ensures
            r matches Some(f) ==> f.wf() && f@ == rat_div(self@, other@),
            (r is Some) <==> (other@.n != 0 && rat_fits(rat_div(self@, other@))),
    {
        if other.num == 0 {
            return None;
        }
        proof {
            lemma_mul_bound(self.num as int, other.den as int, WORKING_RANGE as int);
            lemma_mul_bound(self.den as int, other.num as int, WORKING_RANGE as int);
            if other.num > 0 {
                lemma_mul_pos(self.den as int, other.num as int);
            } else {
                assert(((self.den as int) * (other.num as int)) < 0) by (nonlinear_arith)
                    requires
                        0 < self.den as int,
                        (other.num as int) < 0,
                ;
            }
        }
        let nn = self.num * other.den;
        let dd = self.den * other.num;
        let n: i128 = if other.num > 0 {
            nn
        } else {
            -nn
        };
        let d: i128 = if other.num > 0 {
            dd
        } else {
            -dd
        };
        if -WORKING_RANGE <= n && n <= WORKING_RANGE && d <= WORKING_RANGE {
            Some(Frac { num: n, den: d })
        } else {
            None
        }
    }

    /// Exact value comparison `self <= other`.
    pub fn le(self, other: Frac) -> (r: bool)
        requires
            self.wf(),
            other.wf(),
        ensures
            r == rat_le(self@, other@),
    {
        proof {
            lemma_mul_bound(self.num as int, other.den as int, WORKING_RANGE as int);
            lemma_mul_bound(other.num as int, self.den as int, WORKING_RANGE as int);
        }
        self.num * other.den <= other.num * self.den
    }

    /// Exact value comparison `self < other`.
    pub fn lt(self, other: Frac) -> (r: bool)
        requires
            self.wf(),
            other.wf(),
        ensures
            r == rat_lt(self@, other@),
    {
        proof {
            lemma_mul_bound(self.num as int, other.den as int, WORKING_RANGE as int);
            lemma_mul_bound(other.num as int, self.den as int, WORKING_RANGE as int);
        }
        self.num * other.den < other.num * self.den
    }

    /// Exact value equality (the fractions may have different
    /// representations of the same value).
    pub fn eq_value(self, other: Frac) -> (r: bool)
        requires
            self.wf(),
            other.wf(),
        ensures
            r == rat_eq(self@, other@),
    {
        proof {
            lemma_mul_bound(self.num as int, other.den as int, WORKING_RANGE as int);
            lemma_mul_bound(other.num as int, self.den as int, WORKING_RANGE as int);
        }
        self.num * other.den == other.num * self.den
    }
}

} // verus!
