use fmdemod::discriminator::Discriminator;

#[test]
fn first_output_is_zero_from_silent_state() {
    let mut d = Discriminator::new();
    assert_eq!(d.process(32768, 0), 0);
}

#[test]
fn quarter_turn_with_zero_dot_uses_fallback_exactly() {
    let mut d = Discriminator::new();
    d.process(32768, 0);
    // Previous (1, 0), current (0, 1): dot is exactly zero, cross is the
    // Q30 amplitude one, so the fallback arctangent sees a ratio of one
    // and yields an eighth of a turn; with the gain this is
    // (52151 * 25736) / 32768 truncated.
    assert_eq!(d.process(0, 32768), 40959);
}

#[test]
fn output_depends_on_the_previous_sample() {
    // The same current sample gives different outputs under different
    // previous samples: the state is updated strictly after the output
    // is produced, one sample behind the stream.
    let mut c = Discriminator::new();
    c.process(30000, 100);
    let y1 = c.process(-200, 29000);
    let mut e = Discriminator::new();
    e.process(-200, 29000);
    // A repeated pair has no phase change at all.
    let y2 = e.process(-200, 29000);
    assert_eq!(y2, 0);
    assert_ne!(y1, y2);
}

#[test]
fn constant_rotation_gives_constant_output() {
    // A complex input rotating at a fixed rate per sample produces, after
    // the one-sample warm-up, a constant output equal to the gain times
    // the rotation rate, within a small tolerance.
    let omega: f64 = 0.3;
    let gain = 1.0 / (2.0 * std::f64::consts::PI * 0.1);
    let expected = gain * omega;
    let mut d = Discriminator::new();
    for n in 0..50u32 {
        let phase = omega * n as f64;
        let re = (phase.cos() * 32768.0).round() as i32;
        let im = (phase.sin() * 32768.0).round() as i32;
        let y = d.process(re, im);
        if n >= 1 {
            let got = y as f64 / 32768.0;
            assert!(
                (got - expected).abs() < 0.01,
                "sample {}: got {}, expected {}",
                n,
                got,
                expected
            );
        }
    }
}
