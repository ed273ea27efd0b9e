//! The 3x3 projective transform.
//!
//! A transform is a 3x3 integer matrix together with one positive
//! denominator: the value of the transform is the matrix divided by the
//! denominator, applied to homogeneous 2D column vectors `(x, y, w)`.
//! Keeping one shared denominator makes composition exact: the product of
//! two transforms is the product of the integer matrices over the product of
//! the denominators, so associativity of composition holds on the nose.
//!
//! Inversion uses the adjugate: the inverse of `M / den` is
//! `den * adj(M) / det(M)`, which again needs no division beyond the sign
//! normalization of the denominator.

use vstd::prelude::*;

use crate::num::Frac;
use crate::num::Rat;
use crate::num::WORKING_RANGE;
use crate::num::in_range;
use crate::num::lemma_mul_bound;
use crate::num::lemma_mul_pos;

verus! {

/// Specification-level transform: unbounded integer entries over a
/// denominator. Row `i`, column `j` of the matrix is `mij`.
pub ghost struct Mat {
    pub m00: int, pub m01: int, pub m02: int,
    pub m10: int, pub m11: int, pub m12: int,
    pub m20: int, pub m21: int, pub m22: int,
    pub den: int,
}

/// A well-formed transform has a positive denominator.
pub open spec fn mat_wf(m: Mat) -> bool {
    0 < m.den
}

/// All ten components lie within the working range.
pub open spec fn mat_fits(m: Mat) -> bool {
    &&& in_range(m.m00) && in_range(m.m01) && in_range(m.m02)
    &&& in_range(m.m10) && in_range(m.m11) && in_range(m.m12)
    &&& in_range(m.m20) && in_range(m.m21) && in_range(m.m22)
    &&& in_range(m.den)
}

/// The identity transform.
pub open spec fn mat_identity() -> Mat {
    Mat {
        m00: 1, m01: 0, m02: 0,
        m10: 0, m11: 1, m12: 0,
        m20: 0, m21: 0, m22: 1,
        den: 1,
    }
}

/// Exact matrix product; applying the result equals applying `b`, then `a`.
pub open spec fn mat_mul_s(a: Mat, b: Mat) -> Mat {
    Mat {
        m00: a.m00 * b.m00 + a.m01 * b.m10 + a.m02 * b.m20,
        m01: a.m00 * b.m01 + a.m01 * b.m11 + a.m02 * b.m21,
        m02: a.m00 * b.m02 + a.m01 * b.m12 + a.m02 * b.m22,
        m10: a.m10 * b.m00 + a.m11 * b.m10 + a.m12 * b.m20,
        m11: a.m10 * b.m01 + a.m11 * b.m11 + a.m12 * b.m21,
        m12: a.m10 * b.m02 + a.m11 * b.m12 + a.m12 * b.m22,
        m20: a.m20 * b.m00 + a.m21 * b.m10 + a.m22 * b.m20,
        m21: a.m20 * b.m01 + a.m21 * b.m11 + a.m22 * b.m21,
        m22: a.m20 * b.m02 + a.m21 * b.m12 + a.m22 * b.m22,
        den: a.den * b.den,
    }
}

/// The two transforms denote the same value: every entry agrees after
/// cross multiplication with the denominators.
pub open spec fn mat_eq_s(a: Mat, b: Mat) -> bool {
    &&& a.m00 * b.den == b.m00 * a.den
    &&& a.m01 * b.den == b.m01 * a.den
    &&& a.m02 * b.den == b.m02 * a.den
    &&& a.m10 * b.den == b.m10 * a.den
    &&& a.m11 * b.den == b.m11 * a.den
    &&& a.m12 * b.den == b.m12 * a.den
    &&& a.m20 * b.den == b.m20 * a.den
    &&& a.m21 * b.den == b.m21 * a.den
    &&& a.m22 * b.den == b.m22 * a.den
}

/// Determinant of the numerator matrix. The value of the transform is
/// singular exactly when this is zero, since the denominator is positive.
pub open spec fn mat_det_s(m: Mat) -> int {
    m.m00 * (m.m11 * m.m22 - m.m12 * m.m21)
        - m.m01 * (m.m10 * m.m22 - m.m12 * m.m20)
        + m.m02 * (m.m10 * m.m21 - m.m11 * m.m20)
}

/// Adjugate of the numerator matrix, carried in a `Mat` with denominator 1.
pub open spec fn mat_adj_s(m: Mat) -> Mat {
    Mat {
        m00: m.m11 * m.m22 - m.m12 * m.m21,
        m01: m.m02 * m.m21 - m.m01 * m.m22,
        m02: m.m01 * m.m12 - m.m02 * m.m11,
        m10: m.m12 * m.m20 - m.m10 * m.m22,
        m11: m.m00 * m.m22 - m.m02 * m.m20,
        m12: m.m02 * m.m10 - m.m00 * m.m12,
        m20: m.m10 * m.m21 - m.m11 * m.m20,
        m21: m.m01 * m.m20 - m.m00 * m.m21,
        m22: m.m00 * m.m11 - m.m01 * m.m10,
        den: 1,
    }
}

/// Exact inverse of `m`, meaningful when `mat_det_s(m) != 0`: the entries
/// are `den * adj(M)` over the determinant, with the sign arranged so that
/// the resulting denominator is positive.
pub open spec fn mat_invert_s(m: Mat) -> Mat {
    let a = mat_adj_s(m);
    let det = mat_det_s(m);
    if det >= 0 {
        Mat {
            m00: m.den * a.m00, m01: m.den * a.m01, m02: m.den * a.m02,
            m10: m.den * a.m10, m11: m.den * a.m11, m12: m.den * a.m12,
            m20: m.den * a.m20, m21: m.den * a.m21, m22: m.den * a.m22,
            den: det,
        }
    } else {
        Mat {
            m00: -(m.den * a.m00), m01: -(m.den * a.m01), m02: -(m.den * a.m02),
            m10: -(m.den * a.m10), m11: -(m.den * a.m11), m12: -(m.den * a.m12),
            m20: -(m.den * a.m20), m21: -(m.den * a.m21), m22: -(m.den * a.m22),
            den: -det,
        }
    }
}

/// Whether the inverse both exists and is representable: every adjugate
/// entry, every scaled entry and the determinant lie in the working range,
/// and the determinant is not zero.
pub open spec fn mat_invert_ok(m: Mat) -> bool {
    let a = mat_adj_s(m);
    &&& in_range(a.m00) && in_range(a.m01) && in_range(a.m02)
    &&& in_range(a.m10) && in_range(a.m11) && in_range(a.m12)
    &&& in_range(a.m20) && in_range(a.m21) && in_range(a.m22)
    &&& in_range(mat_det_s(m))
    &&& in_range(m.den * a.m00) && in_range(m.den * a.m01) && in_range(m.den * a.m02)
    &&& in_range(m.den * a.m10) && in_range(m.den * a.m11) && in_range(m.den * a.m12)
    &&& in_range(m.den * a.m20) && in_range(m.den * a.m21) && in_range(m.den * a.m22)
    &&& mat_det_s(m) != 0
}

/// Translation by `(x, y)` over the common denominator of `x` and `y`.
pub open spec fn mat_translate_s(x: Rat, y: Rat) -> Mat {
    Mat {
        m00: x.d * y.d, m01: 0, m02: x.n * y.d,
        m10: 0, m11: x.d * y.d, m12: y.n * x.d,
        m20: 0, m21: 0, m22: x.d * y.d,
        den: x.d * y.d,
    }
}

/// Uniform scaling by `s`.
pub open spec fn mat_scale_s(s: Rat) -> Mat {
    Mat {
        m00: s.n, m01: 0, m02: 0,
        m10: 0, m11: s.n, m12: 0,
        m20: 0, m21: 0, m22: s.d,
        den: s.d,
    }
}

/// Non-uniform scaling by `(sx, sy)` over the common denominator.
pub open spec fn mat_scale_wh_s(sx: Rat, sy: Rat) -> Mat {
    Mat {
        m00: sx.n * sy.d, m01: 0, m02: 0,
        m10: 0, m11: sy.n * sx.d, m12: 0,
        m20: 0, m21: 0, m22: sx.d * sy.d,
        den: sx.d * sy.d,
    }
}

/// Executable transform. Well-formed values keep every field within the
/// working range and the denominator positive.
#[derive(Clone, Copy, Debug, PartialEq, Eq, Structural)]
pub struct Matrix {
    pub m00: i128, pub m01: i128, pub m02: i128,
    pub m10: i128, pub m11: i128, pub m12: i128,
    pub m20: i128, pub m21: i128, pub m22: i128,
    pub den: i128,
}

impl View for Matrix {
    type V = Mat;

    open spec fn view(&self) -> Mat {
        Mat {
            m00: self.m00 as int, m01: self.m01 as int, m02: self.m02 as int,
            m10: self.m10 as int, m11: self.m11 as int, m12: self.m12 as int,
            m20: self.m20 as int, m21: self.m21 as int, m22: self.m22 as int,
            den: self.den as int,
        }
    }
}

/// Dot product of two integer triples within the working range.
fn dot3(a0: i128, a1: i128, a2: i128, b0: i128, b1: i128, b2: i128) -> (r: i128)
    requires
        in_range(a0 as int), in_range(a1 as int), in_range(a2 as int),
        in_range(b0 as int), in_range(b1 as int), in_range(b2 as int),
    ensures
        r as int == (a0 as int) * (b0 as int) + (a1 as int) * (b1 as int) + (a2 as int) * (b2 as int),
{
    proof {
        lemma_mul_bound(a0 as int, b0 as int, WORKING_RANGE as int);
        lemma_mul_bound(a1 as int, b1 as int, WORKING_RANGE as int);
        lemma_mul_bound(a2 as int, b2 as int, WORKING_RANGE as int);
    }
    a0 * b0 + a1 * b1 + a2 * b2
}

/// Whether a machine value lies within the working range.
fn chk(x: i128) -> (r: bool)
    ensures
        r == in_range(x as int),
{
    -WORKING_RANGE <= x && x <= WORKING_RANGE
}

impl Matrix {
    /// Positive denominator, all fields within the working range.
    pub open spec fn wf(&self) -> bool {
        mat_wf(self@) && mat_fits(self@)
    }

    /// The identity transform.
    pub fn identity() -> (r: Matrix)
        ensures
            r.wf(),
            r@ == mat_identity(),
    {
        Matrix {
            m00: 1, m01: 0, m02: 0,
            m10: 0, m11: 1, m12: 0,
            m20: 0, m21: 0, m22: 1,
            den: 1,
        }
    }

    /// Translation by `(x, y)`; `None` exactly when the exact entries leave
    /// the working range.
    pub fn translate(x: Frac, y: Frac) -> (r: Option<Matrix>)
        requires
            x.wf(),
            y.wf(),
        ensures
            r matches Some(m) ==> m.wf() && m@ == mat_translate_s(x@, y@),
            (r is Some) <==> mat_fits(mat_translate_s(x@, y@)),
    {
        proof {
            lemma_mul_bound(x.den as int, y.den as int, WORKING_RANGE as int);
            lemma_mul_bound(x.num as int, y.den as int, WORKING_RANGE as int);
            lemma_mul_bound(y.num as int, x.den as int, WORKING_RANGE as int);
            lemma_mul_pos(x.den as int, y.den as int);
        }
        let d = x.den * y.den;
        let tx = x.num * y.den;
        let ty = y.num * x.den;
        if chk(d) && chk(tx) && chk(ty) {
            Some(Matrix {
                m00: d, m01: 0, m02: tx,
                m10: 0, m11: d, m12: ty,
                m20: 0, m21: 0, m22: d,
                den: d,
            })
        } else {
            None
        }
    }

    /// Uniform scaling by `s`; always representable for a well-formed `s`.
    pub fn scale(s: Frac) -> (r: Matrix)
        requires
            s.wf(),
        ensures
            r.wf(),
            r@ == mat_scale_s(s@),
    {
        Matrix {
            m00: s.num, m01: 0, m02: 0,
            m10: 0, m11: s.num, m12: 0,
            m20: 0, m21: 0, m22: s.den,
            den: s.den,
        }
    }

    /// Non-uniform scaling by `(sx, sy)`; `None` exactly when the exact
    /// entries leave the working range.
    pub fn scale_wh(sx: Frac, sy: Frac) -> (r: Option<Matrix>)
        requires
            sx.wf(),
            sy.wf(),
        ensures
            r matches Some(m) ==> m.wf() && m@ == mat_scale_wh_s(sx@, sy@),
            (r is Some) <==> mat_fits(mat_scale_wh_s(sx@, sy@)),
    {
        proof {
            lemma_mul_bound(sx.den as int, sy.den as int, WORKING_RANGE as int);
            lemma_mul_bound(sx.num as int, sy.den as int, WORKING_RANGE as int);
            lemma_mul_bound(sy.num as int, sx.den as int, WORKING_RANGE as int);
            lemma_mul_pos(sx.den as int, sy.den as int);
        }
        let d = sx.den * sy.den;
        let ex = sx.num * sy.den;
        let ey = sy.num * sx.den;
        if chk(d) && chk(ex) && chk(ey) {
            Some(Matrix {
                m00: ex, m01: 0, m02: 0,
                m10: 0, m11: ey, m12: 0,
                m20: 0, m21: 0, m22: d,
                den: d,
            })
        } else {
            None
        }
    }

    /// Exact composition: applying the result equals applying `other`, then
    /// `self`. `None` exactly when the exact product leaves the working
    /// range.
    pub fn multiply(&self, other: &Matrix) -> (r: Option<Matrix>)
        requires
            self.wf(),
            other.wf(),
        ensures
            r matches Some(m) ==> m.wf() && m@ == mat_mul_s(self@, other@),
            (r is Some) <==> mat_fits(mat_mul_s(self@, other@)),
    {
        let e00 = dot3(self.m00, self.m01, self.m02, other.m00, other.m10, other.m20);
        let e01 = dot3(self.m00, self.m01, self.m02, other.m01, other.m11, other.m21);
        let e02 = dot3(self.m00, self.m01, self.m02, other.m02, other.m12, other.m22);
        let e10 = dot3(self.m10, self.m11, self.m12, other.m00, other.m10, other.m20);
        let e11 = dot3(self.m10, self.m11, self.m12, other.m01, other.m11, other.m21);
        let e12 = dot3(self.m10, self.m11, self.m12, other.m02, other.m12, other.m22);
        let e20 = dot3(self.m20, self.m21, self.m22, other.m00, other.m10, other.m20);
        let e21 = dot3(self.m20, self.m21, self.m22, other.m01, other.m11, other.m21);
        let e22 = dot3(self.m20, self.m21, self.m22, other.m02, other.m12, other.m22);
        proof {
            lemma_mul_bound(self.den as int, other.den as int, WORKING_RANGE as int);
            lemma_mul_pos(self.den as int, other.den as int);
        }
        let d = self.den * other.den;
        if chk(e00) && chk(e01) && chk(e02) && chk(e10) && chk(e11) && chk(e12)
            && chk(e20) && chk(e21) && chk(e22) && chk(d) {
            Some(Matrix {
                m00: e00, m01: e01, m02: e02,
                m10: e10, m11: e11, m12: e12,
                m20: e20, m21: e21, m22: e22,
                den: d,
            })
        } else {
            None
        }
    }

    /// Exact inverse. `None` exactly when the transform is singular or the
    /// exact inverse leaves the working range.
    pub fn invert(&self) -> (r: Option<Matrix>)
        requires
            self.wf(),
        ensures
            r matches Some(m) ==> m.wf() && m@ == mat_invert_s(self@),
            (r is Some) <==> mat_invert_ok(self@),
    {
        proof {
            lemma_mul_bound(self.m11 as int, self.m22 as int, WORKING_RANGE as int);
            lemma_mul_bound(self.m12 as int, self.m21 as int, WORKING_RANGE as int);
            lemma_mul_bound(self.m02 as int, self.m21 as int, WORKING_RANGE as int);
            lemma_mul_bound(self.m01 as int, self.m22 as int, WORKING_RANGE as int);
            lemma_mul_bound(self.m01 as int, self.m12 as int, WORKING_RANGE as int);
            lemma_mul_bound(self.m02 as int, self.m11 as int, WORKING_RANGE as int);
            lemma_mul_bound(self.m12 as int, self.m20 as int, WORKING_RANGE as int);
            lemma_mul_bound(self.m10 as int, self.m22 as int, WORKING_RANGE as int);
            lemma_mul_bound(self.m00 as int, self.m22 as int, WORKING_RANGE as int);
            lemma_mul_bound(self.m02 as int, self.m20 as int, WORKING_RANGE as int);
            lemma_mul_bound(self.m02 as int, self.m10 as int, WORKING_RANGE as int);
            lemma_mul_bound(self.m00 as int, self.m12 as int, WORKING_RANGE as int);
            lemma_mul_bound(self.m10 as int, self.m21 as int, WORKING_RANGE as int);
            lemma_mul_bound(self.m11 as int, self.m20 as int, WORKING_RANGE as int);
            lemma_mul_bound(self.m01 as int, self.m20 as int, WORKING_RANGE as int);
            lemma_mul_bound(self.m00 as int, self.m21 as int, WORKING_RANGE as int);
            lemma_mul_bound(self.m00 as int, self.m11 as int, WORKING_RANGE as int);
            lemma_mul_bound(self.m01 as int, self.m10 as int, WORKING_RANGE as int);
        }
        let a00 = self.m11 * self.m22 - self.m12 * self.m21;
        let a01 = self.m02 * self.m21 - self.m01 * self.m22;
        let a02 = self.m01 * self.m12 - self.m02 * self.m11;
        let a10 = self.m12 * self.m20 - self.m10 * self.m22;
        let a11 = self.m00 * self.m22 - self.m02 * self.m20;
        let a12 = self.m02 * self.m10 - self.m00 * self.m12;
        let a20 = self.m10 * self.m21 - self.m11 * self.m20;
        let a21 = self.m01 * self.m20 - self.m00 * self.m21;
        let a22 = self.m00 * self.m11 - self.m01 * self.m10;
        if !(chk(a00) && chk(a01) && chk(a02) && chk(a10) && chk(a11) && chk(a12)
            && chk(a20) && chk(a21) && chk(a22)) {
            return None;
        }
        let det = dot3(self.m00, self.m01, self.m02, a00, a10, a20);
        proof {
            assert(mat_det_s(self@) == (self.m00 as int) * ((self.m11 as int) * (self.m22 as int)
                - (self.m12 as int) * (self.m21 as int))
                + (self.m01 as int) * ((self.m12 as int) * (self.m20 as int)
                    - (self.m10 as int) * (self.m22 as int))
                + (self.m02 as int) * ((self.m10 as int) * (self.m21 as int)
                    - (self.m11 as int) * (self.m20 as int))) by (nonlinear_arith);
        }
        if !chk(det) || det == 0 {
            return None;
        }
        proof {
            lemma_mul_bound(self.den as int, a00 as int, WORKING_RANGE as int);
            lemma_mul_bound(self.den as int, a01 as int, WORKING_RANGE as int);
            lemma_mul_bound(self.den as int, a02 as int, WORKING_RANGE as int);
            lemma_mul_bound(self.den as int, a10 as int, WORKING_RANGE as int);
            lemma_mul_bound(self.den as int, a11 as int, WORKING_RANGE as int);
            lemma_mul_bound(self.den as int, a12 as int, WORKING_RANGE as int);
            lemma_mul_bound(self.den as int, a20 as int, WORKING_RANGE as int);
            lemma_mul_bound(self.den as int, a21 as int, WORKING_RANGE as int);
            lemma_mul_bound(self.den as int, a22 as int, WORKING_RANGE as int);
        }
        let b00 = self.den * a00;
        let b01 = self.den * a01;
        let b02 = self.den * a02;
        let b10 = self.den * a10;
        let b11 = self.den * a11;
        let b12 = self.den * a12;
        let b20 = self.den * a20;
        let b21 = self.den * a21;
        let b22 = self.den * a22;
        if !(chk(b00) && chk(b01) && chk(b02) && chk(b10) && chk(b11) && chk(b12)
            && chk(b20) && chk(b21) && chk(b22)) {
            return None;
        }
        if det > 0 {
            Some(Matrix {
                m00: b00, m01: b01, m02: b02,
                m10: b10, m11: b11, m12: b12,
                m20: b20, m21: b21, m22: b22,
                den: det,
            })
        } else {
            Some(Matrix {
                m00: -b00, m01: -b01, m02: -b02,
                m10: -b10, m11: -b11, m12: -b12,
                m20: -b20, m21: -b21, m22: -b22,
                den: -det,
            })
        }
    }

    /// Exact value equality: the two transforms denote the same map even if
    /// their representations differ by a common factor of the denominator.
    pub fn eq_value(&self, other: &Matrix) -> (r: bool)
        requires
            self.wf(),
            other.wf(),
        ensures
            r == mat_eq_s(self@, other@),
    {
        proof {
            lemma_mul_bound(self.m00 as int, other.den as int, WORKING_RANGE as int);
            lemma_mul_bound(self.m01 as int, other.den as int, WORKING_RANGE as int);
            lemma_mul_bound(self.m02 as int, other.den as int, WORKING_RANGE as int);
            lemma_mul_bound(self.m10 as int, other.den as int, WORKING_RANGE as int);
            lemma_mul_bound(self.m11 as int, other.den as int, WORKING_RANGE as int);
            lemma_mul_bound(self.m12 as int, other.den as int, WORKING_RANGE as int);
            lemma_mul_bound(self.m20 as int, other.den as int, WORKING_RANGE as int);
            lemma_mul_bound(self.m21 as int, other.den as int, WORKING_RANGE as int);
            lemma_mul_bound(self.m22 as int, other.den as int, WORKING_RANGE as int);
            lemma_mul_bound(other.m00 as int, self.den as int, WORKING_RANGE as int);
            lemma_mul_bound(other.m01 as int, self.den as int, WORKING_RANGE as int);
            lemma_mul_bound(other.m02 as int, self.den as int, WORKING_RANGE as int);
            lemma_mul_bound(other.m10 as int, self.den as int, WORKING_RANGE as int);
            lemma_mul_bound(other.m11 as int, self.den as int, WORKING_RANGE as int);
            lemma_mul_bound(other.m12 as int, self.den as int, WORKING_RANGE as int);
            lemma_mul_bound(other.m20 as int, self.den as int, WORKING_RANGE as int);
            lemma_mul_bound(other.m21 as int, self.den as int, WORKING_RANGE as int);
            lemma_mul_bound(other.m22 as int, self.den as int, WORKING_RANGE as int);
        }
        self.m00 * other.den == other.m00 * self.den
            && self.m01 * other.den == other.m01 * self.den
            && self.m02 * other.den == other.m02 * self.den
            && self.m10 * other.den == other.m10 * self.den
            && self.m11 * other.den == other.m11 * self.den
            && self.m12 * other.den == other.m12 * self.den
            && self.m20 * other.den == other.m20 * self.den
            && self.m21 * other.den == other.m21 * self.den
            && self.m22 * other.den == other.m22 * self.den
    }
}


/// Associativity of the triple dot product that forms one entry of a
/// threefold matrix product.
proof fn lemma_dot_assoc(
    a0: int, a1: int, a2: int,
    b00: int, b01: int, b02: int,
    b10: int, b11: int, b12: int,
    b20: int, b21: int, b22: int,
    c0: int, c1: int, c2: int,
)
    ensures
        (a0 * b00 + a1 * b10 + a2 * b20) * c0
            + (a0 * b01 + a1 * b11 + a2 * b21) * c1
            + (a0 * b02 + a1 * b12 + a2 * b22) * c2
        == a0 * (b00 * c0 + b01 * c1 + b02 * c2)
            + a1 * (b10 * c0 + b11 * c1 + b12 * c2)
            + a2 * (b20 * c0 + b21 * c1 + b22 * c2),
{
    broadcast use vstd::arithmetic::mul::lemma_mul_is_distributive_add;
    broadcast use vstd::arithmetic::mul::lemma_mul_is_distributive_add_other_way;
    broadcast use vstd::arithmetic::mul::lemma_mul_is_associative;
}

/// Composition of transforms is associative, exactly: the two ways of
/// composing three transforms produce the same representation.
pub proof fn lemma_multiply_associative(a: Mat, b: Mat, c: Mat)
    ensures
        mat_mul_s(mat_mul_s(a, b), c) == mat_mul_s(a, mat_mul_s(b, c)),
{
    lemma_dot_assoc(a.m00, a.m01, a.m02, b.m00, b.m01, b.m02, b.m10, b.m11, b.m12,
        b.m20, b.m21, b.m22, c.m00, c.m10, c.m20);
    lemma_dot_assoc(a.m00, a.m01, a.m02, b.m00, b.m01, b.m02, b.m10, b.m11, b.m12,
        b.m20, b.m21, b.m22, c.m01, c.m11, c.m21);
    lemma_dot_assoc(a.m00, a.m01, a.m02, b.m00, b.m01, b.m02, b.m10, b.m11, b.m12,
        b.m20, b.m21, b.m22, c.m02, c.m12, c.m22);
    lemma_dot_assoc(a.m10, a.m11, a.m12, b.m00, b.m01, b.m02, b.m10, b.m11, b.m12,
        b.m20, b.m21, b.m22, c.m00, c.m10, c.m20);
    lemma_dot_assoc(a.m10, a.m11, a.m12, b.m00, b.m01, b.m02, b.m10, b.m11, b.m12,
        b.m20, b.m21, b.m22, c.m01, c.m11, c.m21);
    lemma_dot_assoc(a.m10, a.m11, a.m12, b.m00, b.m01, b.m02, b.m10, b.m11, b.m12,
        b.m20, b.m21, b.m22, c.m02, c.m12, c.m22);
    lemma_dot_assoc(a.m20, a.m21, a.m22, b.m00, b.m01, b.m02, b.m10, b.m11, b.m12,
        b.m20, b.m21, b.m22, c.m00, c.m10, c.m20);
    lemma_dot_assoc(a.m20, a.m21, a.m22, b.m00, b.m01, b.m02, b.m10, b.m11, b.m12,
        b.m20, b.m21, b.m22, c.m01, c.m11, c.m21);
    lemma_dot_assoc(a.m20, a.m21, a.m22, b.m00, b.m01, b.m02, b.m10, b.m11, b.m12,
        b.m20, b.m21, b.m22, c.m02, c.m12, c.m22);
    vstd::arithmetic::mul::lemma_mul_is_associative(a.den, b.den, c.den);
}

/// Laplace expansion: a row of the matrix against the matching adjugate
/// column gives the determinant, a non-matching column vanishes.
proof fn lemma_laplace(m: Mat)
    ensures
        m.m00 * mat_adj_s(m).m00 + m.m01 * mat_adj_s(m).m10 + m.m02 * mat_adj_s(m).m20
            == mat_det_s(m),
        m.m10 * mat_adj_s(m).m01 + m.m11 * mat_adj_s(m).m11 + m.m12 * mat_adj_s(m).m21
            == mat_det_s(m),
        m.m20 * mat_adj_s(m).m02 + m.m21 * mat_adj_s(m).m12 + m.m22 * mat_adj_s(m).m22
            == mat_det_s(m),
        m.m00 * mat_adj_s(m).m01 + m.m01 * mat_adj_s(m).m11 + m.m02 * mat_adj_s(m).m21 == 0,
        m.m00 * mat_adj_s(m).m02 + m.m01 * mat_adj_s(m).m12 + m.m02 * mat_adj_s(m).m22 == 0,
        m.m10 * mat_adj_s(m).m00 + m.m11 * mat_adj_s(m).m10 + m.m12 * mat_adj_s(m).m20 == 0,
        m.m10 * mat_adj_s(m).m02 + m.m11 * mat_adj_s(m).m12 + m.m12 * mat_adj_s(m).m22 == 0,
        m.m20 * mat_adj_s(m).m00 + m.m21 * mat_adj_s(m).m10 + m.m22 * mat_adj_s(m).m20 == 0,
        m.m20 * mat_adj_s(m).m01 + m.m21 * mat_adj_s(m).m11 + m.m22 * mat_adj_s(m).m21 == 0,
{
    broadcast use vstd::arithmetic::mul::lemma_mul_is_distributive_sub;
    broadcast use vstd::arithmetic::mul::lemma_mul_is_associative;
    broadcast use vstd::arithmetic::mul::lemma_mul_is_commutative;
}

/// Scalar factors move out of a triple dot product.
proof fn lemma_dot_factor(k: int, x0: int, x1: int, x2: int, y0: int, y1: int, y2: int)
    ensures
        x0 * (k * y0) + x1 * (k * y1) + x2 * (k * y2) == k * (x0 * y0 + x1 * y1 + x2 * y2),
{
    broadcast use vstd::arithmetic::mul::lemma_mul_is_distributive_add;
    broadcast use vstd::arithmetic::mul::lemma_mul_is_associative;
    broadcast use vstd::arithmetic::mul::lemma_mul_is_commutative;
}

/// A matrix whose diagonal equals its denominator and whose off-diagonal
/// entries vanish is the identity as a value.
proof fn lemma_eq_identity(p: Mat) by (nonlinear_arith)
    requires
        p.m00 == p.den,
        p.m11 == p.den,
        p.m22 == p.den,
        p.m01 == 0,
        p.m02 == 0,
        p.m10 == 0,
        p.m12 == 0,
        p.m20 == 0,
        p.m21 == 0,
    ensures
        mat_eq_s(p, mat_identity()),
{
}

/// Composing a non-singular transform with its inverse yields the
/// identity as a value.
pub proof fn lemma_invert_cancels(m: Mat)
    requires
        mat_wf(m),
        mat_det_s(m) != 0,
    ensures
        mat_eq_s(mat_mul_s(m, mat_invert_s(m)), mat_identity()),
{
    let a = mat_adj_s(m);
    let det = mat_det_s(m);
    let p = mat_mul_s(m, mat_invert_s(m));
    lemma_laplace(m);
    lemma_dot_factor(m.den, m.m00, m.m01, m.m02, a.m00, a.m10, a.m20);
    lemma_dot_factor(m.den, m.m00, m.m01, m.m02, a.m01, a.m11, a.m21);
    lemma_dot_factor(m.den, m.m00, m.m01, m.m02, a.m02, a.m12, a.m22);
    lemma_dot_factor(m.den, m.m10, m.m11, m.m12, a.m00, a.m10, a.m20);
    lemma_dot_factor(m.den, m.m10, m.m11, m.m12, a.m01, a.m11, a.m21);
    lemma_dot_factor(m.den, m.m10, m.m11, m.m12, a.m02, a.m12, a.m22);
    lemma_dot_factor(m.den, m.m20, m.m21, m.m22, a.m00, a.m10, a.m20);
    lemma_dot_factor(m.den, m.m20, m.m21, m.m22, a.m01, a.m11, a.m21);
    lemma_dot_factor(m.den, m.m20, m.m21, m.m22, a.m02, a.m12, a.m22);
    if det >= 0 {
        assert(p.m00 == m.den * det && p.m11 == m.den * det && p.m22 == m.den * det);
        assert(p.m01 == 0 && p.m02 == 0 && p.m10 == 0 && p.m12 == 0 && p.m20 == 0
            && p.m21 == 0);
        assert(p.den == m.den * det);
        lemma_eq_identity(p);
    } else {
        broadcast use vstd::arithmetic::mul::lemma_mul_is_distributive_sub;
        assert(forall|x: int, y: int| #[trigger] (x * (-y)) == -(x * y)) by {
            assert forall|x: int, y: int| #[trigger] (x * (-y)) == -(x * y) by {
                vstd::arithmetic::mul::lemma_mul_is_distributive_sub(x, 0, y);
                vstd::arithmetic::mul::lemma_mul_basics(x);
            }
        }
        assert(p.m00 == -(m.den * det) && p.m11 == -(m.den * det) && p.m22 == -(m.den * det));
        assert(p.m01 == 0 && p.m02 == 0 && p.m10 == 0 && p.m12 == 0 && p.m20 == 0
            && p.m21 == 0);
        assert(p.den == -(m.den * det));
        lemma_eq_identity(p);
    }
}

} // verus!
