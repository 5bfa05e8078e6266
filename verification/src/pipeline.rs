//! The demodulation pipeline: downconverter, branch filters,
//! discriminator and deemphasis filter composed per sample, and the
//! decision step of the processing loop between the two ring buffers.

use vstd::prelude::*;
use crate::discriminator::{disc_out_spec, Discriminator};
use crate::downconvert::{mix, mix_i_spec, mix_q_spec, Quadrant};
use crate::fir::{coeffs_ok, fir_response, FirFilter};
use crate::ring::RingBuffer;
use crate::{sample_ok, within, FIR_OUT_MAX};

verus! {

/// Full demodulator state, owned exclusively by the processing loop: the
/// mixer quadrant, the in-phase, quadrature and audio filters, and the
/// discriminator.
pub struct Demodulator {
    quadrant: Quadrant,
    fir_i: FirFilter,
    fir_q: FirFilter,
    fir_audio: FirFilter,
    disc: Discriminator,
}

impl Demodulator {
    /// Current quadrant of the Fs/4 mixer.
    pub closed spec fn quadrant(self) -> Quadrant {
        self.quadrant
    }

    /// Coefficients of the in-phase branch filter.
    pub closed spec fn i_coeffs(self) -> Seq<i32> {
        self.fir_i.coeffs_view()
    }

    /// Coefficients of the quadrature branch filter.
    pub closed spec fn q_coeffs(self) -> Seq<i32> {
        self.fir_q.coeffs_view()
    }

    /// Coefficients of the audio deemphasis filter.
    pub closed spec fn audio_coeffs(self) -> Seq<i32> {
        self.fir_audio.coeffs_view()
    }

    /// Stream consumed so far by the in-phase filter.
    pub closed spec fn i_consumed(self) -> Seq<i32> {
        self.fir_i.consumed_view()
    }

    /// Stream consumed so far by the quadrature filter.
    pub closed spec fn q_consumed(self) -> Seq<i32> {
        self.fir_q.consumed_view()
    }

    /// Stream consumed so far by the audio filter.
    pub closed spec fn audio_consumed(self) -> Seq<i32> {
        self.fir_audio.consumed_view()
    }

    /// Real part of the discriminator's stored previous sample.
    pub closed spec fn prev_re(self) -> int {
        self.disc.prev_re_val()
    }

    /// Imaginary part of the discriminator's stored previous sample.
    pub closed spec fn prev_im(self) -> int {
        self.disc.prev_im_val()
    }

    /// Number of input samples consumed since construction.
    pub open spec fn samples_in(self) -> int {
        self.i_consumed().len() as int
    }

    /// Well-formedness: every stage well formed, all stages having
    /// consumed equally many samples, and the quadrant equal to that
    /// count modulo four.
    pub closed spec fn wf(self) -> bool {
        &&& self.fir_i.wf()
        &&& self.fir_q.wf()
        &&& self.fir_audio.wf()
        &&& self.disc.wf()
        &&& self.q_consumed().len() == self.i_consumed().len()
        &&& self.audio_consumed().len() == self.i_consumed().len()
        &&& self.quadrant.index() == self.i_consumed().len() as int % 4
    }

    /// Build a demodulator from the three coefficient sequences. Returns
    /// nothing exactly when one of them is unacceptable.
    pub fn new(i_coeffs: Vec<i32>, q_coeffs: Vec<i32>, audio_coeffs: Vec<i32>) -> (r: Option<
        Demodulator,
    >)
        ensures
            match r {
                Some(d) => {
                    &&& coeffs_ok(i_coeffs@) && coeffs_ok(q_coeffs@) && coeffs_ok(audio_coeffs@)
                    &&& d.wf()
                    &&& d.quadrant() == Quadrant::Q0
                    &&& d.i_coeffs() == i_coeffs@
                    &&& d.q_coeffs() == q_coeffs@
                    &&& d.audio_coeffs() == audio_coeffs@
                    &&& d.samples_in() == 0
                    &&& d.prev_re() == 0 && d.prev_im() == 0
                },
                None => !(coeffs_ok(i_coeffs@) && coeffs_ok(q_coeffs@) && coeffs_ok(
                    audio_coeffs@,
                )),
            },
    {
        let fir_i = match FirFilter::new(i_coeffs) {
            Some(f) => f,
            None => {
                return None;
            },
        };
        let fir_q = match FirFilter::new(q_coeffs) {
            Some(f) => f,
            None => {
                return None;
            },
        };
        let fir_audio = match FirFilter::new(audio_coeffs) {
            Some(f) => f,
            None => {
                return None;
            },
        };
        Some(
            Demodulator {
                quadrant: Quadrant::Q0,
                fir_i,
                fir_q,
                fir_audio,
                disc: Discriminator::new(),
            },
        )
    }
}

/// How one consumed sample `s` takes a demodulator from state `pre` to
/// state `post`: the quadrant advances by one, the mixed (I, Q) pair is
/// appended to the branch filter streams, the discriminator output of the
/// two filtered branch samples is appended to the audio filter stream,
/// and the discriminator stores the filtered pair as its new previous
/// sample.
pub open spec fn demod_step_ok(pre: Demodulator, s: int, post: Demodulator) -> bool {
    let n = pre.samples_in();
    let ri = fir_response(pre.i_coeffs(), post.i_consumed(), n);
    let qi = fir_response(pre.q_coeffs(), post.q_consumed(), n);
    &&& post.quadrant() == pre.quadrant().advance_spec()
    &&& post.i_coeffs() == pre.i_coeffs()
    &&& post.q_coeffs() == pre.q_coeffs()
    &&& post.audio_coeffs() == pre.audio_coeffs()
    &&& post.i_consumed().len() == n + 1
    &&& post.i_consumed().drop_last() == pre.i_consumed()
    &&& post.i_consumed().last() as int == mix_i_spec(pre.quadrant(), s)
    &&& post.q_consumed().len() == n + 1
    &&& post.q_consumed().drop_last() == pre.q_consumed()
    &&& post.q_consumed().last() as int == mix_q_spec(pre.quadrant(), s)
    &&& post.prev_re() == ri
    &&& post.prev_im() == qi
    &&& post.audio_consumed().len() == n + 1
    &&& post.audio_consumed().drop_last() == pre.audio_consumed()
    &&& post.audio_consumed().last() as int == disc_out_spec(pre.prev_re(), pre.prev_im(), ri, qi)
}

/// The audio sample produced by the step from `pre` to `post`: the audio
/// filter's response at the new position of its stream.
pub open spec fn demod_out(pre: Demodulator, post: Demodulator) -> int {
    fir_response(pre.audio_coeffs(), post.audio_consumed(), pre.samples_in())
}

impl Demodulator {
    /// Run one input sample through the whole chain and produce one audio
    /// sample.
    pub fn process_sample(&mut self, s: i32) -> (y: i32)
        requires
            old(self).wf(),
            sample_ok(s as int),
        ensures
            final(self).wf(),
            demod_step_ok(*old(self), s as int, *final(self)),
            y as int == demod_out(*old(self), *final(self)),
            within(y as int, FIR_OUT_MAX as int),
    {
        let ghost pre = *self;
        let (vi, vq) = mix(self.quadrant, s);
        self.quadrant = self.quadrant.advance();
        let ri = self.fir_i.feed(vi);
        let qi = self.fir_q.feed(vq);
        let d = self.disc.process(ri, qi);
        let y = self.fir_audio.feed(d);
        proof {
            assert(self.i_consumed().drop_last() =~= pre.i_consumed());
            assert(self.q_consumed().drop_last() =~= pre.q_consumed());
            assert(self.audio_consumed().drop_last() =~= pre.audio_consumed());
        }
        y
    }
}

/// Outcome of one iteration of the processing loop.
#[derive(Clone, Copy, Debug, PartialEq, Eq, Structural)]
pub enum StepResult {
    /// The ingress buffer was empty; nothing was consumed or produced,
    /// and the caller should idle briefly.
    Idle,
    /// One sample was consumed, demodulated, and its audio sample pushed.
    Pushed,
    /// One sample was consumed and demodulated, but the egress buffer was
    /// full and the audio sample was silently dropped.
    Dropped,
}

/// One iteration of the processing loop: on an empty ingress buffer
/// nothing at all happens and no output is produced; otherwise exactly
/// one sample is popped, demodulated, and its audio sample pushed into
/// the egress buffer, a full egress buffer dropping it silently.
pub fn step(ingress: &mut RingBuffer, demod: &mut Demodulator, egress: &mut RingBuffer) -> (r:
    StepResult)
    requires
        old(ingress).wf(),
        old(demod).wf(),
        old(egress).wf(),
        forall|i: int| 0 <= i < old(ingress).contents().len() ==> sample_ok(
            #[trigger] old(ingress).contents()[i] as int),
    ensures
        final(ingress).wf() && final(demod).wf() && final(egress).wf(),
        final(ingress).cap() == old(ingress).cap(),
        final(egress).cap() == old(egress).cap(),
        old(ingress).contents().len() == 0 ==> r == StepResult::Idle && *final(ingress) == *old(
            ingress,
        ) && *final(demod) == *old(demod) && *final(egress) == *old(egress),
        old(ingress).contents().len() > 0 ==> {
            let s = old(ingress).contents()[0];
            &&& final(ingress).contents() == old(ingress).contents().drop_first()
            &&& demod_step_ok(*old(demod), s as int, *final(demod))
            &&& if old(egress).contents().len() < old(egress).cap() {
                &&& r == StepResult::Pushed
                &&& final(egress).contents().len() == old(egress).contents().len() + 1
                &&& final(egress).contents().drop_last() == old(egress).contents()
                &&& final(egress).contents().last() as int == demod_out(*old(demod), *final(demod))
            } else {
                &&& r == StepResult::Dropped
                &&& final(egress).contents() == old(egress).contents()
            }
        },
{
    if ingress.is_empty() {
        return StepResult::Idle;
    }
    let s = ingress.try_pop().unwrap();
    let y = demod.process_sample(s);
    let pushed = egress.push(y);
    proof {
        if old(egress).contents().len() < old(egress).cap() {
            assert(egress.contents().drop_last() =~= old(egress).contents());
        }
    }
    if pushed {
        StepResult::Pushed
    } else {
        StepResult::Dropped
    }
}

} // verus!
