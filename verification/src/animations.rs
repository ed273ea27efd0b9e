//! Animations and interpolations.
//!
//! An interpolation maps time (nanosecond instants) to an exact progress
//! value in `[0, 1]`; an animation maps a progress value to a transform.
//! Both are traits with a specification-level model, so code generic over
//! them still has an exact contract.
//!
//! Times are plain nanosecond counters, as handed out by the clock of the
//! `time` crate.

use vstd::prelude::*;

use crate::matrix::Mat;
use crate::matrix::Matrix;
use crate::matrix::mat_translate_s;
use crate::matrix::mat_scale_s;
use crate::num::Frac;
use crate::num::Rat;
use crate::num::int_rat;
use crate::num::rat_le;
use crate::num::rat_sub;
use crate::num::lemma_mul_bound2;

verus! {

/// Upper bound on durations, denominators of progress values and easing
/// factors: 2^16, the fixed grid on which progress is quantized.
pub const PROGRESS_GRID: i128 = 65536;

/// Describes how an animation should be interpolated.
pub trait Interpolation: Sized {
    /// Whether the parameters of this interpolation are usable.
    spec fn wf(&self) -> bool;

    /// The exact progress value returned for the given times.
    spec fn model(&self, now: u64, start: u64, duration: u64) -> Rat;

    /// Takes the current instant, the instant the animation started, and
    /// its duration (all in nanoseconds), and returns the progress of the
    /// animation: an exact value between 0 and 1.
    fn calculate(&self, now: u64, start: u64, duration: u64) -> (r: Frac)
        requires
            self.wf(),
            0 < duration,
            duration as int <= 0x1000_0000_0000_0000,
        ensures
            r.wf(),
            r@ == self.model(now, start, duration),
            rat_le(int_rat(0), r@),
            rat_le(r@, int_rat(1)),
    ;

    /// Reverses the interpolation: the element starts at its final position
    /// and goes towards the start.
    fn reverse(self) -> (r: Reversed<Self>)
        ensures
            r.inner == self,
    {
        Reversed { inner: self }
    }
}

/// A linear interpolation: progress is elapsed time over duration, clamped
/// to `[0, 1]`, and zero before the start instant.
#[derive(Copy, Clone, Default, Debug)]
pub struct Linear;

impl Interpolation for Linear {
    open spec fn wf(&self) -> bool {
        true
    }

    open spec fn model(&self, now: u64, start: u64, duration: u64) -> Rat {
        if now <= start {
            int_rat(0)
        } else if now - start >= duration {
            int_rat(1)
        } else {
            Rat { n: now - start, d: duration as int }
        }
    }

    fn calculate(&self, now: u64, start: u64, duration: u64) -> (r: Frac) {
        if now <= start {
            Frac { num: 0, den: 1 }
        } else {
            let elapsed = now - start;
            if elapsed >= duration {
                Frac { num: 1, den: 1 }
            } else {
                Frac { num: elapsed as i128, den: duration as i128 }
            }
        }
    }
}

/// Denominator of the ease-out curve: `6 * 256^3`.
pub const EASE_OUT_ONE: i128 = 100663296;

/// Largest quantized argument of the ease-out curve (`32` in units of
/// 1/256): past this point the curve stays at its plateau, just under 1.
pub const EASE_OUT_CAP: i128 = 8192;

/// The quantized argument of the ease-out curve: `256 * elapsed * factor /
/// duration`, floored and capped at `EASE_OUT_CAP`; zero before the start.
pub open spec fn ease_out_arg(now: u64, start: u64, duration: u64, factor: Rat) -> int {
    if now < start {
        0
    } else {
        let q = ((now - start) * factor.n * 256) / ((duration as int) * factor.d);
        if q > EASE_OUT_CAP as int {
            EASE_OUT_CAP as int
        } else {
            q
        }
    }
}

/// Value of the ease-out curve at quantized argument `q`: a rational
/// approximation of `1 - exp(-q / 256)` built from the cubic Taylor
/// polynomial of the exponential, exactly 0 at 0 and strictly below 1
/// everywhere.
pub open spec fn ease_out_value(q: int) -> Rat {
    let t = EASE_OUT_ONE as int + 393216 * q + 768 * q * q + q * q * q;
    Rat { n: t - EASE_OUT_ONE as int, d: t }
}

/// An ease-out interpolation: progress rises quickly, then slows down as it
/// approaches its final value, along a rational approximation of
/// `1 - exp(-elapsed_ratio * factor)`.
#[derive(Copy, Clone, Debug)]
pub struct EaseOut {
    /// The higher the factor, the quicker the element reaches its
    /// destination.
    pub factor: Frac,
}

impl EaseOut {
    /// Usable factors are positive and lie on the progress grid.
    pub open spec fn factor_wf(f: Frac) -> bool {
        &&& f.wf()
        &&& 0 < f@.n <= PROGRESS_GRID as int
        &&& f@.d <= PROGRESS_GRID as int
    }

    /// Builds an `EaseOut` object.
    pub fn new(factor: Frac) -> (r: EaseOut)
        requires
            EaseOut::factor_wf(factor),
        ensures
            r.factor == factor,
    {
        EaseOut { factor }
    }
}

impl Default for EaseOut {
    /// The default easing factor, 10.
    fn default() -> (r: EaseOut)
        ensures
            r.factor@ == int_rat(10),
    {
        EaseOut { factor: Frac { num: 10, den: 1 } }
    }
}

/// The ease-out curve value is never negative and strictly below 1.
pub proof fn lemma_ease_out_range(q: int)
    requires
        0 <= q,
    ensures
        rat_le(int_rat(0), ease_out_value(q)),
        rat_lt_one(ease_out_value(q)),
        q == 0 ==> ease_out_value(q).n == 0,
{
    assert(0 <= 768 * q * q) by (nonlinear_arith)
        requires
            0 <= q,
    ;
    assert(0 <= q * q * q) by (nonlinear_arith)
        requires
            0 <= q,
    ;
}

/// The value is strictly below one.
pub open spec fn rat_lt_one(a: Rat) -> bool {
    a.n < a.d
}

impl Interpolation for EaseOut {
    open spec fn wf(&self) -> bool {
        EaseOut::factor_wf(self.factor)
    }

    open spec fn model(&self, now: u64, start: u64, duration: u64) -> Rat {
        ease_out_value(ease_out_arg(now, start, duration, self.factor@))
    }

    fn calculate(&self, now: u64, start: u64, duration: u64) -> (r: Frac) {
        if now < start {
            proof {
                lemma_ease_out_range(0);
            }
            Frac { num: 0, den: EASE_OUT_ONE }
        } else {
            let elapsed = (now - start) as u128;
            let fnum = self.factor.num as u128;
            let fden = self.factor.den as u128;
            let dur = duration as u128;
            proof {
                lemma_mul_bound2(elapsed as int, fnum as int, 0x10000000000000000, 65536);
                lemma_mul_bound2(dur as int, fden as int, 0x1000_0000_0000_0000, 65536);
                crate::num::lemma_mul_pos(dur as int, fden as int);
            }
            let num = elapsed * fnum * 256;
            let den = dur * fden;
            let q0 = num / den;
            let q: i128 = if q0 > EASE_OUT_CAP as u128 {
                EASE_OUT_CAP
            } else {
                q0 as i128
            };
            proof {
                assert(q as int == ease_out_arg(now, start, duration, self.factor@));
                lemma_ease_out_range(q as int);
                lemma_mul_bound2(q as int, q as int, 8192, 8192);
                lemma_mul_bound2(768 * q as int, q as int, 0x30000000, 8192);
                lemma_mul_bound2((q * q) as int, q as int, 0x4000000, 8192);
            }
            let t = EASE_OUT_ONE + 393216 * q + 768 * q * q + q * q * q;
            Frac { num: t - EASE_OUT_ONE, den: t }
        }
    }
}

/// Wraps an interpolation and reverses it: the element starts at its final
/// position and goes towards the start.
#[derive(Copy, Clone, Debug)]
pub struct Reversed<I> {
    /// The wrapped interpolation.
    pub inner: I,
}

impl<I: Interpolation> Reversed<I> {
    /// Builds a `Reversed` object.
    pub fn new(inner: I) -> (r: Reversed<I>)
        ensures
            r.inner == inner,
    {
        Reversed { inner }
    }
}

impl<I: Interpolation> Interpolation for Reversed<I> {
    open spec fn wf(&self) -> bool {
        self.inner.wf()
    }

    open spec fn model(&self, now: u64, start: u64, duration: u64) -> Rat {
        rat_sub(int_rat(1), self.inner.model(now, start, duration))
    }

    fn calculate(&self, now: u64, start: u64, duration: u64) -> (r: Frac) {
        let p = self.inner.calculate(now, start, duration);
        Frac { num: p.den - p.num, den: p.den }
    }
}

/// A reversed interpolation returns exactly one minus what the wrapped
/// interpolation returns, for every instant.
pub proof fn lemma_reversed_complements<I: Interpolation>(
    r: Reversed<I>,
    now: u64,
    start: u64,
    duration: u64,
)
    ensures
        r.model(now, start, duration)
            == rat_sub(int_rat(1), r.inner.model(now, start, duration)),
{
}

/// Describes a way to modify an element during an animation.
pub trait Animation: Sized {
    /// Whether the parameters of this animation are usable.
    spec fn wf(&self) -> bool;

    /// The exact transform produced for the given progress value.
    spec fn model(&self, percent: Rat) -> Mat;

    /// Takes an animation progress between 0 and 1 whose denominator lies
    /// on the progress grid, and returns the inner transform to multiply
    /// the element with.
    fn animate(&self, percent: Frac) -> (r: Matrix)
        requires
            self.wf(),
            percent.wf(),
            percent@.d <= PROGRESS_GRID as int,
            rat_le(int_rat(0), percent@),
            rat_le(percent@, int_rat(1)),
        ensures
            r.wf(),
            r@ == self.model(percent@),
    ;
}

/// Whether an offset component is small enough to build animation
/// transforms without leaving the working range: magnitude at most 2^16,
/// granularity at least 1/256.
pub open spec fn offset_wf(f: Frac) -> bool {
    &&& f.wf()
    &&& -65536 <= f@.n <= 65536
    &&& f@.d <= 256
}

/// Relative movement of the element from `initial_offset` to the origin.
#[derive(Copy, Clone, Debug)]
pub struct Translation {
    /// Position of the element at the start of the animation; 1 is half
    /// the size of the element.
    pub initial_offset: [Frac; 2],
}

impl Translation {
    /// Builds a `Translation` object.
    pub fn new(initial_offset: [Frac; 2]) -> (r: Translation)
        requires
            offset_wf(initial_offset[0]),
            offset_wf(initial_offset[1]),
        ensures
            r.initial_offset@ == initial_offset@,
    {
        Translation { initial_offset }
    }
}

impl Animation for Translation {
    open spec fn wf(&self) -> bool {
        offset_wf(self.initial_offset[0]) && offset_wf(self.initial_offset[1])
    }

    open spec fn model(&self, percent: Rat) -> Mat {
        let ox = self.initial_offset[0]@;
        let oy = self.initial_offset[1]@;
        mat_translate_s(
            Rat { n: (percent.d - percent.n) * ox.n, d: percent.d * ox.d },
            Rat { n: (percent.d - percent.n) * oy.n, d: percent.d * oy.d },
        )
    }

    fn animate(&self, percent: Frac) -> (r: Matrix) {
        let ox = self.initial_offset[0];
        let oy = self.initial_offset[1];
        proof {
            lemma_mul_bound2((percent.den - percent.num) as int, ox.num as int, PROGRESS_GRID as int, 65536);
            lemma_mul_bound2((percent.den - percent.num) as int, oy.num as int, PROGRESS_GRID as int, 65536);
            lemma_mul_bound2(percent.den as int, ox.den as int, PROGRESS_GRID as int, 256);
            lemma_mul_bound2(percent.den as int, oy.den as int, PROGRESS_GRID as int, 256);
            crate::num::lemma_mul_pos(percent.den as int, ox.den as int);
            crate::num::lemma_mul_pos(percent.den as int, oy.den as int);
        }
        let remaining = percent.den - percent.num;
        let x = Frac { num: remaining * ox.num, den: percent.den * ox.den };
        let y = Frac { num: remaining * oy.num, den: percent.den * oy.den };
        proof {
            lemma_mul_bound2(x.den as int, y.den as int, 0x1000000, 0x1000000);
            lemma_mul_bound2(x.num as int, y.den as int, 0x100000000, 0x1000000);
            lemma_mul_bound2(y.num as int, x.den as int, 0x100000000, 0x1000000);
            crate::num::lemma_mul_pos(x.den as int, y.den as int);
        }
        let m = Matrix::translate(x, y);
        m.unwrap()
    }
}

/// Zooms the element from `initial_zoom` to normal size.
#[derive(Copy, Clone, Debug)]
pub struct Zoom {
    /// The initial zoom of the element at the start of the animation; 1 is
    /// the normal size, 2 twice bigger.
    pub initial_zoom: Frac,
}

impl Zoom {
    /// Builds a `Zoom` object.
    pub fn new(initial_zoom: Frac) -> (r: Zoom)
        requires
            offset_wf(initial_zoom),
        ensures
            r.initial_zoom == initial_zoom,
    {
        Zoom { initial_zoom }
    }
}

impl Animation for Zoom {
    open spec fn wf(&self) -> bool {
        offset_wf(self.initial_zoom)
    }

    open spec fn model(&self, percent: Rat) -> Mat {
        let z = self.initial_zoom@;
        mat_scale_s(
            Rat {
                n: (percent.d - percent.n) * (z.n - z.d) + percent.d * z.d,
                d: percent.d * z.d,
            },
        )
    }

    fn animate(&self, percent: Frac) -> (r: Matrix) {
        let z = self.initial_zoom;
        proof {
            lemma_mul_bound2((percent.den - percent.num) as int, (z.num - z.den) as int,
                PROGRESS_GRID as int, 0x20000);
            lemma_mul_bound2(percent.den as int, z.den as int, PROGRESS_GRID as int, 256);
            crate::num::lemma_mul_pos(percent.den as int, z.den as int);
        }
        proof {
            let ghost zz = self.initial_zoom@;
            let ghost pp = percent@;
            assert((pp.d - pp.n) * (zz.n - zz.d) + pp.d * zz.d == self.model(percent@).m00);
        }
        let remaining = percent.den - percent.num;
        let d = percent.den * z.den;
        let s = Frac { num: remaining * (z.num - z.den) + d, den: d };
        Matrix::scale(s)
    }
}


/// The linear interpolation starts at zero, reaches one exactly at the
/// end of the duration, and stays clamped at one afterwards.
pub proof fn lemma_linear_clamps(now: u64, start: u64, duration: u64)
    requires
        0 < duration,
    ensures
        now <= start ==> Linear.model(now, start, duration) == int_rat(0),
        now >= start + duration ==> Linear.model(now, start, duration) == int_rat(1),
{
}

/// The ease-out curve starts at exactly zero, never goes below zero, and
/// never reaches one for any instant.
pub proof fn lemma_ease_out_props(e: EaseOut, now: u64, start: u64, duration: u64)
    requires
        e.wf(),
        0 < duration,
    ensures
        now == start ==> e.model(now, start, duration).n == 0,
        rat_le(int_rat(0), e.model(now, start, duration)),
        rat_lt_one(e.model(now, start, duration)),
{
    let q = ease_out_arg(now, start, duration, e.factor@);
    if now < start {
        lemma_ease_out_range(0);
    } else {
        crate::num::lemma_mul_pos(duration as int, e.factor@.d);
        vstd::arithmetic::div_mod::lemma_div_pos_is_pos(
            (now - start) * e.factor@.n * 256,
            (duration as int) * e.factor@.d,
        );
        assert((now - start) * e.factor@.n * 256 >= 0) by (nonlinear_arith)
            requires
                now >= start,
                e.factor@.n > 0,
        ;
        lemma_ease_out_range(q);
        if now == start {
            assert((0int * e.factor@.n) * 256 == 0) by (nonlinear_arith);
            vstd::arithmetic::div_mod::lemma_div_of0((duration as int) * e.factor@.d);
        }
    }
}


/// The ease-out curve is monotone in its quantized argument: more elapsed
/// time never lowers the progress, which climbs towards its plateau just
/// below one.
pub proof fn lemma_ease_out_monotone(q1: int, q2: int)
    requires
        0 <= q1 <= q2,
    ensures
        rat_le(ease_out_value(q1), ease_out_value(q2)),
{
    let t1 = EASE_OUT_ONE as int + 393216 * q1 + 768 * q1 * q1 + q1 * q1 * q1;
    let t2 = EASE_OUT_ONE as int + 393216 * q2 + 768 * q2 * q2 + q2 * q2 * q2;
    assert(0 < t1 && t1 <= t2) by (nonlinear_arith)
        requires
            0 <= q1 <= q2,
            t1 == EASE_OUT_ONE as int + 393216 * q1 + 768 * q1 * q1 + q1 * q1 * q1,
            t2 == EASE_OUT_ONE as int + 393216 * q2 + 768 * q2 * q2 + q2 * q2 * q2,
    ;
    assert((t1 - EASE_OUT_ONE as int) * t2 <= (t2 - EASE_OUT_ONE as int) * t1)
        by (nonlinear_arith)
        requires
            0 < t1 <= t2,
    ;
}

} // verus!
