use fmdemod::downconvert::{mix, Quadrant};

#[test]
fn quadrant_cycle_is_count_mod_four() {
    let mut q = Quadrant::Q0;
    for n in 0u8..16 {
        assert_eq!(q.index_val(), n % 4);
        q = q.advance();
    }
    assert_eq!(q, Quadrant::Q0);
}

#[test]
fn mixer_lookup_table() {
    assert_eq!(mix(Quadrant::Q0, 5), (5, 0));
    assert_eq!(mix(Quadrant::Q1, 5), (0, -5));
    assert_eq!(mix(Quadrant::Q2, 5), (-5, 0));
    assert_eq!(mix(Quadrant::Q3, 5), (0, 5));
    assert_eq!(mix(Quadrant::Q1, -7), (0, 7));
    assert_eq!(mix(Quadrant::Q2, -7), (7, 0));
}
