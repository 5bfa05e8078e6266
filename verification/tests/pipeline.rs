use fmdemod::pipeline::{step, Demodulator, StepResult};
use fmdemod::ring::RingBuffer;

fn small_demod() -> Demodulator {
    Demodulator::new(vec![8192, 16384, 8192], vec![8192, 16384, 8192], vec![32768]).unwrap()
}

/// Windowed-sinc low-pass design with unit passband gain, quantized to
/// Q15. `cutoff` is a fraction of the sample rate.
fn lowpass_q15(taps: usize, cutoff: f64) -> Vec<i32> {
    let m = (taps - 1) as f64;
    let center = m / 2.0;
    let mut h: Vec<f64> = Vec::with_capacity(taps);
    for k in 0..taps {
        let t = k as f64 - center;
        let sinc = if t == 0.0 {
            2.0 * cutoff
        } else {
            (2.0 * std::f64::consts::PI * cutoff * t).sin() / (std::f64::consts::PI * t)
        };
        let window = 0.54 - 0.46 * (2.0 * std::f64::consts::PI * k as f64 / m).cos();
        h.push(sinc * window);
    }
    let sum: f64 = h.iter().sum();
    h.iter().map(|v| (v / sum * 32768.0).round() as i32).collect()
}

#[test]
fn rejects_bad_coefficients() {
    assert!(Demodulator::new(vec![1, 2], vec![3], vec![5]).is_none());
    assert!(Demodulator::new(vec![1], vec![], vec![5]).is_none());
    assert!(Demodulator::new(vec![1], vec![3], vec![2000000000, 1, 2000000000]).is_none());
    assert!(Demodulator::new(vec![1], vec![3], vec![5]).is_some());
}

#[test]
fn idle_on_empty_ingress_produces_nothing() {
    let mut ingress = RingBuffer::new(8);
    let mut egress = RingBuffer::with_latency(4);
    let mut demod = small_demod();
    // Many iterations with no input: no output appears and nothing is
    // consumed, only the idle outcome is reported.
    for _ in 0..1000 {
        assert_eq!(step(&mut ingress, &mut demod, &mut egress), StepResult::Idle);
    }
    assert_eq!(egress.len(), 4);
    // The egress side drains the pre-fill as silence until real data
    // arrives.
    for _ in 0..4 {
        assert_eq!(egress.try_pop(), Some(0));
    }
    assert_eq!(egress.try_pop(), None);
}

#[test]
fn step_consumes_one_sample_and_pushes_one() {
    let mut ingress = RingBuffer::new(8);
    let mut egress = RingBuffer::new(8);
    let mut demod = small_demod();
    assert!(ingress.push(32768));
    assert_eq!(step(&mut ingress, &mut demod, &mut egress), StepResult::Pushed);
    assert!(ingress.is_empty());
    assert_eq!(egress.len(), 1);
}

#[test]
fn step_drops_on_full_egress() {
    let mut ingress = RingBuffer::new(8);
    let mut egress = RingBuffer::new(1);
    let mut demod = small_demod();
    assert!(egress.push(77));
    assert!(ingress.push(32768));
    assert_eq!(step(&mut ingress, &mut demod, &mut egress), StepResult::Dropped);
    assert!(ingress.is_empty());
    assert_eq!(egress.try_pop(), Some(77));
    assert_eq!(egress.try_pop(), None);
}

#[test]
fn demodulates_a_tone_end_to_end() {
    // A carrier at a quarter of the sample rate, frequency-modulated by a
    // tone, comes out of the full chain as that tone with the amplitude
    // the discriminator gain predicts: deviation / (K * sample rate),
    // within a few percent.
    let fs = 48000.0_f64;
    let fm = 300.0_f64;
    let deviation = 1000.0_f64;
    let two_pi = 2.0 * std::f64::consts::PI;
    let mut demod = Demodulator::new(
        lowpass_q15(89, 0.12),
        lowpass_q15(89, 0.12),
        lowpass_q15(61, 0.25),
    )
    .unwrap();
    let total = 4800usize;
    let mut outputs: Vec<i32> = Vec::with_capacity(total);
    for n in 0..total {
        let t = n as f64 / fs;
        let phase = two_pi * (fs / 4.0) * t + (deviation / fm) * (two_pi * fm * t).sin();
        let s = (phase.cos() * 32767.0).round() as i32;
        outputs.push(demod.process_sample(s));
    }
    // Peak over the last full modulation cycle, after every filter has
    // settled.
    let cycle = (fs / fm) as usize;
    let peak = outputs[total - cycle..]
        .iter()
        .map(|v| (*v as f64 / 32768.0).abs())
        .fold(0.0_f64, f64::max);
    let expected = deviation / (0.1 * fs);
    assert!(
        (peak - expected).abs() <= 0.05 * expected,
        "peak {}, expected {}",
        peak,
        expected
    );
}
