//! Differential-phase FM discriminator: recovers instantaneous frequency
//! from consecutive filtered complex samples with a cross/dot product
//! detector and a fixed-point arctangent, avoiding phase unwrapping.

use vstd::prelude::*;
use crate::{abs_i, div_trunc, div_trunc_i64, lemma_mul_bounds, lemma_mul_le, within, FIR_OUT_MAX};

verus! {

/// Demodulation gain `1 / (2 * pi * K)` with modulation index `K = 1/10`,
/// in Q15.
pub const GAIN_Q15: i64 = 52151;

/// A quarter turn, `pi / 2`, in Q15.
pub const PI_HALF_Q15: u64 = 51472;

/// An eighth of a turn, `pi / 4`, in Q15: the linear arctangent term.
pub const ATAN_P1: u64 = 25736;

/// First quadratic-correction coefficient of the arctangent, in Q15.
pub const ATAN_P2: u64 = 8018;

/// Second quadratic-correction coefficient of the arctangent, in Q15.
pub const ATAN_P3: u64 = 2173;

/// The amplitude one at the scale of a product of two Q15 values: the
/// denominator substituted in the degenerate zero-dot fallback.
pub const DOT_ONE_Q30: i64 = 1073741824;

/// Largest magnitude of a discriminator output: the gain times a quarter
/// turn, in Q15.
pub const DISC_OUT_MAX: i64 = 81920;

/// Largest accepted magnitude of a cross or dot product handed to the
/// fixed-point arctangent.
pub const ATAN_ARG_MAX: i64 = 1152921504606846976;

/// Polynomial arctangent of a ratio `q` in Q15, for `0 <= q <= 32768`:
/// a linear term plus a quadratic correction, accurate to a few
/// thousandths of a radian over the unit interval.
pub open spec fn atan_poly_spec(q: int) -> int {
    (ATAN_P1 as int) * q / 32768 + (q * (32768 - q) / 32768) * ((ATAN_P2 as int) + (
    ATAN_P3 as int) * q / 32768) / 32768
}

/// Fixed-point arctangent of `num / den` in Q15, for `den != 0`. Ratios of
/// magnitude at most one use the polynomial directly; larger ratios use
/// the complementary angle of the reciprocal ratio.
pub open spec fn atan_ratio_spec(num: int, den: int) -> int {
    let an = abs_i(num);
    let ad = abs_i(den);
    let mag = if an <= ad {
        atan_poly_spec(an * 32768 / ad)
    } else {
        (PI_HALF_Q15 as int) - atan_poly_spec(ad * 32768 / an)
    };
    if (num < 0) != (den < 0) {
        -mag
    } else {
        mag
    }
}

/// Cross product of the previous and current complex samples,
/// proportional to the sine of the phase difference.
pub open spec fn cross_spec(re1: int, im1: int, re0: int, im0: int) -> int {
    re1 * im0 - im1 * re0
}

/// Dot product of the previous and current complex samples, proportional
/// to the cosine of the phase difference.
pub open spec fn dot_spec(re1: int, im1: int, re0: int, im0: int) -> int {
    re1 * re0 + im1 * im0
}

/// Discriminator output for previous sample `(re1, im1)` and current
/// sample `(re0, im0)`: the gain times the arctangent of cross over dot,
/// with the amplitude one substituted for a zero dot.
pub open spec fn disc_out_spec(re1: int, im1: int, re0: int, im0: int) -> int {
    let c = cross_spec(re1, im1, re0, im0);
    let d = dot_spec(re1, im1, re0, im0);
    let a = if d == 0 {
        atan_ratio_spec(c, DOT_ONE_Q30 as int)
    } else {
        atan_ratio_spec(c, d)
    };
    div_trunc((GAIN_Q15 as int) * a, 32768)
}

/// Polynomial arctangent on the unit interval, exec form.
fn atan_poly(q: u64) -> (r: u64)
    requires
        q <= 32768,
    ensures
        r as int == atan_poly_spec(q as int),
        r <= 28283,
{
    proof {
        assert(ATAN_P1 as int * (q as int) <= 25736 * 32768) by (nonlinear_arith)
            requires
                q <= 32768,
        ;
        assert((q as int) * (32768 - q as int) <= 268435456) by (nonlinear_arith)
            requires
                0 <= q <= 32768,
        ;
        assert(0 <= (q as int) * (32768 - q as int)) by (nonlinear_arith)
            requires
                0 <= q <= 32768,
        ;
        assert(ATAN_P3 as int * (q as int) <= 2173 * 32768) by (nonlinear_arith)
            requires
                q <= 32768,
        ;
    }
    let p1 = ATAN_P1 * q / 32768;
    proof {
        vstd::arithmetic::div_mod::lemma_div_is_ordered(
            ATAN_P1 as int * q as int,
            25736int * 32768,
            32768,
        );
        vstd::arithmetic::div_mod::lemma_div_multiples_vanish(25736, 32768);
        assert(25736 * 32768 == 32768 * 25736) by (nonlinear_arith);
    }
    let z1mz = q * (32768 - q) / 32768;
    proof {
        vstd::arithmetic::div_mod::lemma_div_is_ordered(
            q as int * (32768 - q as int),
            268435456,
            32768,
        );
    }
    let inner = ATAN_P2 + ATAN_P3 * q / 32768;
    proof {
        vstd::arithmetic::div_mod::lemma_div_is_ordered(
            ATAN_P3 as int * q as int,
            2173int * 32768,
            32768,
        );
        vstd::arithmetic::div_mod::lemma_div_multiples_vanish(2173, 32768);
        assert(2173 * 32768 == 32768 * 2173) by (nonlinear_arith);
        assert(z1mz as int * (inner as int) <= 8192 * 10191) by (nonlinear_arith)
            requires
                0 <= z1mz as int <= 8192,
                0 <= inner as int <= 10191,
        ;
        vstd::arithmetic::div_mod::lemma_div_is_ordered(
            z1mz as int * inner as int,
            8192int * 10191,
            32768,
        );
    }
    let p2 = z1mz * inner / 32768;
    p1 + p2
}

/// Fixed-point arctangent of a signed ratio, exec form: octant reduction
/// on magnitudes, sign restored at the end.
fn atan_ratio(num: i64, den: i64) -> (r: i64)
    requires
        den != 0,
        within(num as int, ATAN_ARG_MAX as int),
        within(den as int, ATAN_ARG_MAX as int),
    ensures
        r as int == atan_ratio_spec(num as int, den as int),
        within(r as int, PI_HALF_Q15 as int),
{
    let an: u64 = if num < 0 {
        (-num) as u64
    } else {
        num as u64
    };
    let ad: u64 = if den < 0 {
        (-den) as u64
    } else {
        den as u64
    };
    let neg = (num < 0) != (den < 0);
    let mag: u64 = if an <= ad {
        let prod: u128 = (an as u128) * 32768;
        proof {
            lemma_mul_le(an as int, ad as int, 32768);
            vstd::arithmetic::div_mod::lemma_div_is_ordered(
                an as int * 32768,
                ad as int * 32768,
                ad as int,
            );
            vstd::arithmetic::div_mod::lemma_div_multiples_vanish(32768, ad as int);
            assert((ad as int) * 32768 == 32768 * (ad as int)) by (nonlinear_arith);
        }
        let q = (prod / (ad as u128)) as u64;
        atan_poly(q)
    } else {
        let prod: u128 = (ad as u128) * 32768;
        proof {
            lemma_mul_le(ad as int, an as int, 32768);
            vstd::arithmetic::div_mod::lemma_div_is_ordered(
                ad as int * 32768,
                an as int * 32768,
                an as int,
            );
            vstd::arithmetic::div_mod::lemma_div_multiples_vanish(32768, an as int);
            assert((an as int) * 32768 == 32768 * (an as int)) by (nonlinear_arith);
        }
        let q = (prod / (an as u128)) as u64;
        PI_HALF_Q15 - atan_poly(q)
    };
    if neg {
        -(mag as i64)
    } else {
        mag as i64
    }
}

/// Discriminator state: the previous filtered complex sample, updated
/// strictly after each output is produced, so every output lags the
/// stream by exactly one sample.
pub struct Discriminator {
    prev_re: i32,
    prev_im: i32,
}

impl Discriminator {
    /// Real part of the stored previous sample.
    pub closed spec fn prev_re_val(self) -> int {
        self.prev_re as int
    }

    /// Imaginary part of the stored previous sample.
    pub closed spec fn prev_im_val(self) -> int {
        self.prev_im as int
    }

    /// The stored sample stays within the filter output range.
    pub closed spec fn wf(self) -> bool {
        &&& within(self.prev_re_val(), FIR_OUT_MAX as int)
        &&& within(self.prev_im_val(), FIR_OUT_MAX as int)
    }

    /// A fresh discriminator, with silence as the previous sample.
    pub fn new() -> (r: Discriminator)
        ensures
            r.wf(),
            r.prev_re_val() == 0,
            r.prev_im_val() == 0,
    {
        Discriminator { prev_re: 0, prev_im: 0 }
    }

    /// Produce one audio-rate output from the current filtered complex
    /// sample, then store that sample as the new previous one.
    pub fn process(&mut self, re: i32, im: i32) -> (y: i32)
        requires
            old(self).wf(),
            within(re as int, FIR_OUT_MAX as int),
            within(im as int, FIR_OUT_MAX as int),
        ensures
            final(self).wf(),
            final(self).prev_re_val() == re as int,
            final(self).prev_im_val() == im as int,
            y as int == disc_out_spec(
                old(self).prev_re_val(),
                old(self).prev_im_val(),
                re as int,
                im as int,
            ),
            within(y as int, DISC_OUT_MAX as int),
    {
        let re1 = self.prev_re as i64;
        let im1 = self.prev_im as i64;
        let re0 = re as i64;
        let im0 = im as i64;
        proof {
            lemma_mul_bounds(re1 as int, im0 as int, FIR_OUT_MAX as int, FIR_OUT_MAX as int);
            lemma_mul_bounds(im1 as int, re0 as int, FIR_OUT_MAX as int, FIR_OUT_MAX as int);
            lemma_mul_bounds(re1 as int, re0 as int, FIR_OUT_MAX as int, FIR_OUT_MAX as int);
            lemma_mul_bounds(im1 as int, im0 as int, FIR_OUT_MAX as int, FIR_OUT_MAX as int);
        }
        let cross = re1 * im0 - im1 * re0;
        let dot = re1 * re0 + im1 * im0;
        let a = if dot == 0 {
            atan_ratio(cross, DOT_ONE_Q30)
        } else {
            atan_ratio(cross, dot)
        };
        proof {
            lemma_mul_bounds(GAIN_Q15 as int, a as int, GAIN_Q15 as int, PI_HALF_Q15 as int);
        }
        let g = GAIN_Q15 * a;
        let y64 = div_trunc_i64(g, 32768);
        proof {
            if g >= 0 {
                vstd::arithmetic::div_mod::lemma_div_is_ordered(
                    g as int,
                    GAIN_Q15 as int * PI_HALF_Q15 as int,
                    32768,
                );
            } else {
                vstd::arithmetic::div_mod::lemma_div_is_ordered(
                    -(g as int),
                    GAIN_Q15 as int * PI_HALF_Q15 as int,
                    32768,
                );
            }
        }
        self.prev_re = re;
        self.prev_im = im;
        y64 as i32
    }
}

} // verus!
