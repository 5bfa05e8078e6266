use fmdemod::fir::FirFilter;

#[test]
fn impulse_response_is_the_coefficients() {
    let mut f = FirFilter::new(vec![3, -2, 5]).unwrap();
    let out = f.process(&vec![32768, 0, 0, 0, 0]);
    assert_eq!(out, vec![3, -2, 5, 0, 0]);
}

#[test]
fn chunked_processing_equals_one_call() {
    let coeffs = vec![100, -300, 500, 700, -200];
    let input: Vec<i32> = vec![
        32768, -16384, 4000, 0, -32768, 12345, -1, 7, 30000, -30000, 2, 90,
    ];
    let mut whole = FirFilter::new(coeffs.clone()).unwrap();
    let expected = whole.process(&input);

    let mut chunked = FirFilter::new(coeffs).unwrap();
    let mut got: Vec<i32> = Vec::new();
    for chunk in [&input[0..3], &input[3..4], &input[4..9], &input[9..12]] {
        got.extend(chunked.process(&chunk.to_vec()));
    }
    assert_eq!(got, expected);
}

#[test]
fn rejects_empty_coefficients() {
    assert!(FirFilter::new(vec![]).is_none());
}

#[test]
fn rejects_even_tap_count() {
    assert!(FirFilter::new(vec![1, 2]).is_none());
}

#[test]
fn rejects_oversized_coefficient_sum() {
    assert!(FirFilter::new(vec![2000000000, 2000000000, 2000000000]).is_none());
    // One tap of magnitude just above the bound is rejected too.
    assert!(FirFilter::new(vec![131073]).is_none());
    assert!(FirFilter::new(vec![131072]).is_some());
}

#[test]
fn running_sum_of_full_scale_input() {
    // Three equal taps of a third of unit gain: the output climbs over the
    // warm-up window, then holds at the full coefficient sum.
    let mut f = FirFilter::new(vec![16384, 16384, 16384]).unwrap();
    let out = f.process(&vec![32768; 6]);
    assert_eq!(out, vec![16384, 32768, 49152, 49152, 49152, 49152]);
}

#[test]
fn rescaling_truncates_toward_zero() {
    let mut f = FirFilter::new(vec![1]).unwrap();
    // -40000 / 32768 is -1 when truncating toward zero, -2 when flooring.
    let out = f.process(&vec![-40000, 40000]);
    assert_eq!(out, vec![-1, 1]);
}
