//! Fs/4 quadrature downconverter: shifts a real signal centered at one
//! quarter of the sample rate to complex baseband with a four-entry lookup
//! instead of per-sample trigonometry.

use vstd::prelude::*;
use crate::{sample_ok, SAMPLE_MAX};

verus! {

/// Phase of the Fs/4 mixer. Its only inhabitants are the four quadrants,
/// so a value outside `{0, 1, 2, 3}` is unrepresentable by construction.
#[derive(Clone, Copy, Debug, PartialEq, Eq, Structural)]
pub enum Quadrant {
    Q0,
    Q1,
    Q2,
    Q3,
}

impl Quadrant {
    /// The quadrant as an integer in `{0, 1, 2, 3}`.
    pub open spec fn index(self) -> int {
        match self {
            Quadrant::Q0 => 0,
            Quadrant::Q1 => 1,
            Quadrant::Q2 => 2,
            Quadrant::Q3 => 3,
        }
    }

    /// The next quadrant in the cycle.
    pub open spec fn advance_spec(self) -> Quadrant {
        match self {
            Quadrant::Q0 => Quadrant::Q1,
            Quadrant::Q1 => Quadrant::Q2,
            Quadrant::Q2 => Quadrant::Q3,
            Quadrant::Q3 => Quadrant::Q0,
        }
    }

    /// The quadrant reached after `n` advances.
    pub open spec fn advance_n(self, n: nat) -> Quadrant
        decreases n,
    {
        if n == 0 {
            self
        } else {
            self.advance_n((n - 1) as nat).advance_spec()
        }
    }

    /// Advance cyclically: the index moves by exactly one, modulo four.
    pub fn advance(self) -> (r: Quadrant)
        ensures
            r == self.advance_spec(),
            r.index() == (self.index() + 1) % 4,
    {
        match self {
            Quadrant::Q0 => Quadrant::Q1,
            Quadrant::Q1 => Quadrant::Q2,
            Quadrant::Q2 => Quadrant::Q3,
            Quadrant::Q3 => Quadrant::Q0,
        }
    }

    /// The quadrant's index, as a runtime value.
    pub fn index_val(self) -> (r: u8)
        ensures
            r as int == self.index(),
    {
        match self {
            Quadrant::Q0 => 0,
            Quadrant::Q1 => 1,
            Quadrant::Q2 => 2,
            Quadrant::Q3 => 3,
        }
    }
}

/// In-phase output of the mixer for input `s` in quadrant `q`.
pub open spec fn mix_i_spec(q: Quadrant, s: int) -> int {
    match q {
        Quadrant::Q0 => s,
        Quadrant::Q1 => 0,
        Quadrant::Q2 => -s,
        Quadrant::Q3 => 0,
    }
}

/// Quadrature output of the mixer for input `s` in quadrant `q`.
pub open spec fn mix_q_spec(q: Quadrant, s: int) -> int {
    match q {
        Quadrant::Q0 => 0,
        Quadrant::Q1 => -s,
        Quadrant::Q2 => 0,
        Quadrant::Q3 => s,
    }
}

/// Mix one real sample into its (I, Q) pair for the current quadrant.
pub fn mix(q: Quadrant, s: i32) -> (r: (i32, i32))
    requires
        sample_ok(s as int),
    ensures
        r.0 as int == mix_i_spec(q, s as int),
        r.1 as int == mix_q_spec(q, s as int),
        sample_ok(r.0 as int),
        sample_ok(r.1 as int),
{
    match q {
        Quadrant::Q0 => (s, 0),
        Quadrant::Q1 => (0, -s),
        Quadrant::Q2 => (-s, 0),
        Quadrant::Q3 => (0, s),
    }
}

/// Quadrant cycle: starting at the first quadrant, after `n` consumed
/// samples the quadrant index equals `n` modulo four.
pub proof fn lemma_quadrant_cycle(n: nat)
    ensures
        Quadrant::Q0.advance_n(n).index() == n % 4,
    decreases n,
{
    if n > 0 {
        lemma_quadrant_cycle((n - 1) as nat);
    }
}

} // verus!
