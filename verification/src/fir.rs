//! Streaming finite-impulse-response low-pass filter in Q15 fixed point.
//!
//! A filter is an immutable coefficient sequence plus a persistent shift
//! register of past inputs, so that filtering a stream chunk by chunk gives
//! exactly the same outputs as filtering it in one call. Instantiated on
//! the in-phase branch, the quadrature branch, and the demodulated audio.

use vstd::prelude::*;
use crate::{abs_i, div_trunc, div_trunc_i64, lemma_mul_bounds, lemma_mul_le, sample_ok, within,
    COEFF_L1_MAX, FIR_OUT_MAX, SAMPLE_MAX, SCALE};

verus! {

/// The sample of stream `s` at position `k`; positions before the start of
/// the stream read as silence.
pub open spec fn sample_at(s: Seq<i32>, k: int) -> int {
    if 0 <= k < s.len() {
        s[k] as int
    } else {
        0
    }
}

/// Partial convolution sum: the first `j` coefficient terms of the filter
/// response of stream `s` at position `k`.
pub open spec fn conv_partial(c: Seq<i32>, s: Seq<i32>, k: int, j: int) -> int
    decreases j,
{
    if j <= 0 {
        0
    } else {
        conv_partial(c, s, k, j - 1) + (c[j - 1] as int) * sample_at(s, k - (j - 1))
    }
}

/// Full convolution accumulator of coefficients `c` against stream `s` at
/// position `k`, before rescaling.
pub open spec fn conv_acc(c: Seq<i32>, s: Seq<i32>, k: int) -> int {
    conv_partial(c, s, k, c.len() as int)
}

/// The filter output at position `k` of stream `s`: the convolution of the
/// coefficients against the stream, rescaled from the Q15 product domain.
pub open spec fn fir_response(c: Seq<i32>, s: Seq<i32>, k: int) -> int {
    div_trunc(conv_acc(c, s, k), SCALE as int)
}

/// Partial sum of coefficient magnitudes.
pub open spec fn l1_partial(c: Seq<i32>, j: int) -> int
    decreases j,
{
    if j <= 0 {
        0
    } else {
        l1_partial(c, j - 1) + abs_i(c[j - 1] as int)
    }
}

/// Sum of the magnitudes of all coefficients.
pub open spec fn l1_norm(c: Seq<i32>) -> int {
    l1_partial(c, c.len() as int)
}

/// An acceptable coefficient sequence: at least one tap, an odd tap count,
/// and a magnitude sum small enough that no intermediate sum overflows.
pub open spec fn coeffs_ok(c: Seq<i32>) -> bool {
    &&& c.len() >= 1
    &&& c.len() % 2 == 1
    &&& l1_norm(c) <= COEFF_L1_MAX as int
}

proof fn lemma_l1_nonneg(c: Seq<i32>, j: int)
    requires
        j <= c.len(),
    ensures
        l1_partial(c, j) >= 0,
    decreases j,
{
    if j > 0 {
        lemma_l1_nonneg(c, j - 1);
    }
}

proof fn lemma_l1_mono(c: Seq<i32>, j1: int, j2: int)
    requires
        0 <= j1 <= j2 <= c.len(),
    ensures
        l1_partial(c, j1) <= l1_partial(c, j2),
    decreases j2,
{
    if j2 > j1 {
        lemma_l1_mono(c, j1, j2 - 1);
    }
}

proof fn lemma_l1_element(c: Seq<i32>, j: int)
    requires
        0 <= j < c.len(),
    ensures
        abs_i(c[j] as int) <= l1_norm(c),
{
    lemma_l1_nonneg(c, j);
    lemma_l1_mono(c, j + 1, c.len() as int);
}

proof fn lemma_conv_partial_bound(c: Seq<i32>, s: Seq<i32>, k: int, j: int, m: int)
    requires
        0 <= j <= c.len(),
        m >= 0,
        forall|i: int| 0 <= i < s.len() ==> abs_i(#[trigger] s[i] as int) <= m,
    ensures
        abs_i(conv_partial(c, s, k, j)) <= l1_partial(c, j) * m,
    decreases j,
{
    if j <= 0 {
        assert(l1_partial(c, j) * m == 0) by (nonlinear_arith)
            requires
                l1_partial(c, j) == 0,
        ;
    } else {
        lemma_conv_partial_bound(c, s, k, j - 1, m);
        let t = c[j - 1] as int;
        let a = sample_at(s, k - (j - 1));
        assert(abs_i(a) <= m);
        lemma_mul_bounds(t, a, abs_i(t), m);
        assert((l1_partial(c, j - 1) + abs_i(t)) * m == l1_partial(c, j - 1) * m + abs_i(t) * m)
            by (nonlinear_arith);
    }
}

proof fn lemma_conv_prefix(c: Seq<i32>, x: Seq<i32>, y: Seq<i32>, k: int, j: int)
    requires
        0 <= k < x.len(),
        0 <= j <= c.len(),
    ensures
        conv_partial(c, x + y, k, j) == conv_partial(c, x, k, j),
    decreases j,
{
    if j > 0 {
        lemma_conv_prefix(c, x, y, k, j - 1);
        assert(sample_at(x + y, k - (j - 1)) == sample_at(x, k - (j - 1)));
    }
}

/// Chunk-boundary continuity: the filter response at a position of the
/// stream does not depend on samples that arrive later, so filtering a
/// stream in one call and filtering it in arbitrarily split chunks yield
/// identical output sequences.
pub proof fn lemma_fir_continuity(c: Seq<i32>, x: Seq<i32>, y: Seq<i32>, k: int)
    requires
        0 <= k < x.len(),
    ensures
        fir_response(c, x + y, k) == fir_response(c, x, k),
{
    lemma_conv_prefix(c, x, y, k, c.len() as int);
}

/// A unit impulse: full scale at the first position, silence after.
pub open spec fn is_impulse(s: Seq<i32>) -> bool {
    &&& s.len() >= 1
    &&& s[0] as int == SCALE as int
    &&& forall|i: int| 1 <= i < s.len() ==> s[i] == 0i32
}

proof fn lemma_conv_impulse(c: Seq<i32>, s: Seq<i32>, k: int, j: int)
    requires
        is_impulse(s),
        0 <= j <= c.len(),
        0 <= k,
    ensures
        conv_partial(c, s, k, j) == if k < j {
            (c[k] as int) * (SCALE as int)
        } else {
            0
        },
    decreases j,
{
    if j > 0 {
        lemma_conv_impulse(c, s, k, j - 1);
        if k == j - 1 {
            assert(sample_at(s, 0) == SCALE as int);
        } else {
            assert(sample_at(s, k - (j - 1)) == 0);
            assert((c[j - 1] as int) * 0 == 0) by (nonlinear_arith);
        }
    }
}

/// Impulse response: feeding a unit impulse through a filter with taps
/// `c` yields exactly the coefficients, followed by silence.
pub proof fn lemma_impulse_response(c: Seq<i32>, s: Seq<i32>, k: int)
    requires
        is_impulse(s),
        0 <= k,
    ensures
        fir_response(c, s, k) == if k < c.len() {
            c[k] as int
        } else {
            0
        },
{
    lemma_conv_impulse(c, s, k, c.len() as int);
    if k < c.len() {
        let v = c[k] as int;
        vstd::arithmetic::div_mod::lemma_div_multiples_vanish(v, SCALE as int);
        if v >= 0 {
            assert(v * (SCALE as int) == (SCALE as int) * v) by (nonlinear_arith);
        } else {
            assert(-(v * (SCALE as int)) == (SCALE as int) * (-v)) by (nonlinear_arith);
            vstd::arithmetic::div_mod::lemma_div_multiples_vanish(-v, SCALE as int);
        }
    }
}

/// Streaming low-pass filter: immutable Q15 coefficients and a shift
/// register holding the most recent inputs, one per tap.
pub struct FirFilter {
    coeffs: Vec<i32>,
    hist: Vec<i32>,
    consumed: Ghost<Seq<i32>>,
}

impl FirFilter {
    /// The coefficient sequence fixed at construction.
    pub closed spec fn coeffs_view(self) -> Seq<i32> {
        self.coeffs@
    }

    /// Every input sample the filter has consumed, oldest first.
    pub closed spec fn consumed_view(self) -> Seq<i32> {
        self.consumed@
    }

    /// Well-formedness: acceptable coefficients, a shift register of one
    /// entry per tap that mirrors the most recent consumed samples, and
    /// every consumed sample within range.
    pub closed spec fn wf(self) -> bool {
        &&& coeffs_ok(self.coeffs@)
        &&& self.hist@.len() == self.coeffs@.len()
        &&& forall|i: int| 0 <= i < self.consumed@.len() ==> sample_ok(
            #[trigger] self.consumed@[i] as int)
        &&& forall|i: int| 0 <= i < self.hist@.len() ==> #[trigger] self.hist@[i] as int
            == sample_at(self.consumed@, self.consumed@.len() - self.hist@.len() + i)
    }

    /// Build a filter from its coefficients; the history starts as
    /// silence. Returns nothing exactly when the coefficient sequence is
    /// unacceptable: empty, of even length, or with a magnitude sum above
    /// `COEFF_L1_MAX`.
    pub fn new(coeffs: Vec<i32>) -> (r: Option<FirFilter>)
        ensures
            match r {
                Some(f) => coeffs_ok(coeffs@) && f.wf() && f.coeffs_view() == coeffs@
                    && f.consumed_view() == Seq::<i32>::empty(),
                None => !coeffs_ok(coeffs@),
            },
    {
        let n = coeffs.len();
        if n == 0 || n % 2 == 0 {
            return None;
        }
        let mut acc: i64 = 0;
        let mut i: usize = 0;
        while i < n
            invariant
                n == coeffs@.len(),
                i <= n,
                acc as int == l1_partial(coeffs@, i as int),
                0 <= acc <= COEFF_L1_MAX,
            decreases n - i,
        {
            let cv = coeffs[i];
            let a: i64 = if cv < 0 {
                -(cv as i64)
            } else {
                cv as i64
            };
            let na = acc + a;
            if na > COEFF_L1_MAX {
                proof {
                    lemma_l1_mono(coeffs@, i as int + 1, n as int);
                }
                return None;
            }
            acc = na;
            i += 1;
        }
        let mut hist: Vec<i32> = Vec::new();
        let mut j: usize = 0;
        while j < n
            invariant
                j <= n,
                hist@.len() == j as int,
                forall|t: int| 0 <= t < hist@.len() ==> hist@[t] == 0i32,
            decreases n - j,
        {
            hist.push(0);
            j += 1;
        }
        Some(FirFilter { coeffs, hist, consumed: Ghost(Seq::empty()) })
    }

    /// Consume one input sample and produce the filter output at that
    /// position of the stream.
    pub fn feed(&mut self, x: i32) -> (y: i32)
        requires
            old(self).wf(),
            sample_ok(x as int),
        ensures
            final(self).wf(),
            final(self).coeffs_view() == old(self).coeffs_view(),
            final(self).consumed_view() == old(self).consumed_view().push(x),
            y as int == fir_response(
                old(self).coeffs_view(),
                final(self).consumed_view(),
                old(self).consumed_view().len() as int,
            ),
            within(y as int, FIR_OUT_MAX as int),
    {
        let ghost c = self.coeffs@;
        let ghost pre = self.consumed@;
        let ghost ll = pre.len() as int;
        let n = self.coeffs.len();
        self.hist.remove(0);
        self.hist.push(x);
        proof {
            self.consumed@ = pre.push(x);
        }
        let ghost total = self.consumed@;
        assert forall|i: int| 0 <= i < self.hist@.len() implies #[trigger] self.hist@[i] as int
            == sample_at(total, total.len() - self.hist@.len() + i) by {
            if i < n - 1 {
                assert(self.hist@[i] == old(self).hist@[i + 1]);
                assert(old(self).hist@[i + 1] as int == sample_at(pre, ll - n + i + 1));
                assert(sample_at(pre, ll - n + i + 1) == sample_at(total, ll - n + i + 1));
            } else {
                assert(self.hist@[i] == x);
                assert(sample_at(total, ll) == x as int);
            }
        }
        let mut acc: i64 = 0;
        let mut j: usize = 0;
        while j < n
            invariant
                n == c.len(),
                j <= n,
                self.coeffs@ == c,
                self.consumed@ == total,
                total == pre.push(x),
                ll == pre.len() as int,
                self.hist@.len() == n as int,
                coeffs_ok(c),
                forall|i: int| 0 <= i < total.len() ==> sample_ok(#[trigger] total[i] as int),
                forall|i: int| 0 <= i < self.hist@.len() ==> #[trigger] self.hist@[i] as int
                    == sample_at(total, total.len() - self.hist@.len() + i),
                acc as int == conv_partial(c, total, ll, j as int),
                abs_i(acc as int) <= l1_partial(c, j as int) * (SAMPLE_MAX as int),
            decreases n - j,
        {
            let t = self.coeffs[j];
            let h = self.hist[n - 1 - j];
            proof {
                lemma_l1_element(c, j as int);
                assert(self.hist@[n - 1 - j] as int == sample_at(total, ll - j));
                assert(abs_i(sample_at(total, ll - j)) <= SAMPLE_MAX as int);
                lemma_l1_nonneg(c, j as int);
                lemma_l1_mono(c, j as int, c.len() as int);
                lemma_mul_le(l1_partial(c, j as int), COEFF_L1_MAX as int, SAMPLE_MAX as int);
                lemma_mul_bounds(t as int, h as int, abs_i(t as int), SAMPLE_MAX as int);
                assert((l1_partial(c, j as int) + abs_i(t as int)) * (SAMPLE_MAX as int)
                    == l1_partial(c, j as int) * (SAMPLE_MAX as int) + abs_i(t as int) * (
                SAMPLE_MAX as int)) by (nonlinear_arith);
            }
            acc = acc + (t as i64) * (h as i64);
            j += 1;
        }
        proof {
            lemma_l1_mono(c, n as int, c.len() as int);
            lemma_mul_le(l1_partial(c, n as int), COEFF_L1_MAX as int, SAMPLE_MAX as int);
        }
        let y64 = div_trunc_i64(acc, SCALE as i64);
        proof {
            if acc >= 0 {
                vstd::arithmetic::div_mod::lemma_div_is_ordered(
                    acc as int,
                    COEFF_L1_MAX as int * SAMPLE_MAX as int,
                    SCALE as int,
                );
            } else {
                vstd::arithmetic::div_mod::lemma_div_is_ordered(
                    -(acc as int),
                    COEFF_L1_MAX as int * SAMPLE_MAX as int,
                    SCALE as int,
                );
            }
        }
        y64 as i32
    }

    /// Filter a chunk of input samples, producing one output per input.
    /// Consecutive calls on chunks of any sizes produce exactly the
    /// outputs of one call on the concatenated stream, because the shift
    /// register persists across calls.
    pub fn process(&mut self, input: &Vec<i32>) -> (out: Vec<i32>)
        requires
            old(self).wf(),
            forall|i: int| 0 <= i < input@.len() ==> sample_ok(#[trigger] input@[i] as int),
        ensures
            final(self).wf(),
            final(self).coeffs_view() == old(self).coeffs_view(),
            final(self).consumed_view() == old(self).consumed_view() + input@,
            out@.len() == input@.len(),
            forall|k: int| 0 <= k < out@.len() ==> #[trigger] out@[k] as int == fir_response(
                old(self).coeffs_view(),
                final(self).consumed_view(),
                old(self).consumed_view().len() + k,
            ),
            forall|k: int| 0 <= k < out@.len() ==> within(#[trigger] out@[k] as int,
                FIR_OUT_MAX as int),
    {
        let ghost c = self.coeffs@;
        let ghost pre = self.consumed@;
        let ghost full = pre + input@;
        let m = input.len();
        let mut out: Vec<i32> = Vec::new();
        let mut k: usize = 0;
        while k < m
            invariant
                m == input@.len(),
                k <= m,
                self.wf(),
                self.coeffs@ == c,
                full == pre + input@,
                forall|i: int| 0 <= i < input@.len() ==> sample_ok(#[trigger] input@[i] as int),
                self.consumed@ == pre + input@.subrange(0, k as int),
                out@.len() == k as int,
                forall|t: int| 0 <= t < out@.len() ==> #[trigger] out@[t] as int == fir_response(
                    c,
                    full,
                    pre.len() + t,
                ),
                forall|t: int| 0 <= t < out@.len() ==> within(#[trigger] out@[t] as int,
                    FIR_OUT_MAX as int),
            decreases m - k,
        {
            let x = input[k];
            let y = self.feed(x);
            proof {
                assert(self.consumed@ =~= pre + input@.subrange(0, k as int + 1));
                let partial = pre + input@.subrange(0, k as int + 1);
                let rest = input@.subrange(k as int + 1, m as int);
                assert(full =~= partial + rest);
                lemma_fir_continuity(c, partial, rest, pre.len() + k as int);
            }
            out.push(y);
            k += 1;
        }
        proof {
            assert(self.consumed@ =~= pre + input@);
        }
        out
    }
}

} // verus!
