//! Narrowband FM demodulation of a digitized intermediate-frequency signal
//! sampled at four times the carrier.
//!
//! All signal values are fixed-point integers in Q15 format: the amplitude
//! `1` is represented by `32768`. The pipeline is: an ingress ring buffer,
//! an Fs/4 quadrature downconverter, a pair of low-pass FIR filters on the
//! in-phase and quadrature branches, a differential-phase FM discriminator,
//! an output deemphasis FIR filter, and an egress ring buffer.

use vstd::prelude::*;

pub mod ring;
pub mod downconvert;
pub mod fir;
pub mod discriminator;
pub mod pipeline;

verus! {

/// The Q15 fixed-point representation of the amplitude one.
pub const SCALE: i64 = 32768;

/// Largest magnitude, in Q15, accepted for a raw input sample. This leaves
/// twelve bits of headroom above full scale so that intermediate stages of
/// the pipeline never overflow.
pub const SAMPLE_MAX: i64 = 134217728;

/// Largest accepted sum of coefficient magnitudes of a FIR filter, in Q15.
/// A unit-gain low-pass design stays well below this.
pub const COEFF_L1_MAX: i64 = 131072;

/// Largest magnitude of a FIR filter output: `COEFF_L1_MAX * SAMPLE_MAX / SCALE`.
pub const FIR_OUT_MAX: i64 = 536870912;

/// `v` is within the magnitude bound `b`.
pub open spec fn within(v: int, b: int) -> bool {
    -b <= v <= b
}

/// `v` is an acceptable input sample.
pub open spec fn sample_ok(v: int) -> bool {
    within(v, SAMPLE_MAX as int)
}

/// Magnitude of an integer.
pub open spec fn abs_i(v: int) -> int {
    if v >= 0 {
        v
    } else {
        -v
    }
}

/// Bound on a product from bounds on its factors.
pub proof fn lemma_mul_bounds(a: int, b: int, ma: int, mb: int) by (nonlinear_arith)
    requires
        -ma <= a <= ma,
        -mb <= b <= mb,
        0 <= ma,
        0 <= mb,
    ensures
        -(ma * mb) <= a * b <= ma * mb,
{
}

/// Multiplication by a nonnegative factor preserves order.
pub proof fn lemma_mul_le(a: int, b: int, c: int) by (nonlinear_arith)
    requires
        0 <= a <= b,
        0 <= c,
    ensures
        a * c <= b * c,
{
}

/// Division truncating toward zero, the rescaling step of Q15 products.
pub open spec fn div_trunc(a: int, d: int) -> int
    recommends
        d > 0,
{
    if a >= 0 {
        a / d
    } else {
        -((-a) / d)
    }
}

/// Truncating division of a Q15 value by a positive divisor, computed on
/// magnitudes so that the quotient is exact in both signs.
pub fn div_trunc_i64(a: i64, d: i64) -> (r: i64)
    requires
        d > 0,
        a > i64::MIN,
    ensures
        r as int == div_trunc(a as int, d as int),
        abs_i(r as int) <= abs_i(a as int),
{
    if a >= 0 {
        let q: u64 = (a as u64) / (d as u64);
        proof {
            vstd::arithmetic::div_mod::lemma_div_is_ordered(a as int, a as int, d as int);
            vstd::arithmetic::div_mod::lemma_div_pos_is_pos(a as int, d as int);
            vstd::arithmetic::div_mod::lemma_div_is_ordered_by_denominator(a as int, 1, d as int);
        }
        q as i64
    } else {
        let m: i64 = -a;
        let q: u64 = (m as u64) / (d as u64);
        proof {
            vstd::arithmetic::div_mod::lemma_div_pos_is_pos(m as int, d as int);
            vstd::arithmetic::div_mod::lemma_div_is_ordered_by_denominator(m as int, 1, d as int);
        }
        -(q as i64)
    }
}

} // verus!
