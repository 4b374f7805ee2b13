use el320x240_36hb_sender::dither::ordered_bit;
use el320x240_36hb_sender::dither::threshold_bit;
use el320x240_36hb_sender::matrix::DitheringMatrix;

#[test]
fn threshold_midpoint_cutoff() {
    // Full range: the midpoint of 0 and 255 is 127.5, so 128 is lit and
    // 127 is not.
    assert!(threshold_bit(128, 0, 255));
    assert!(!threshold_bit(127, 0, 255));
    // Narrow range 100..=200: midpoint 150.
    assert!(threshold_bit(151, 100, 200));
    assert!(!threshold_bit(150, 100, 200));
    // Degenerate range: black == white == 0 lights everything above zero.
    assert!(threshold_bit(1, 0, 0));
    assert!(!threshold_bit(0, 0, 0));
}

#[test]
fn bayer4_layout() {
    let m = DitheringMatrix::bayer4();
    assert_eq!(m.n, 4);
    assert_eq!(
        m.entries,
        vec![0, 8, 2, 10, 12, 4, 14, 6, 3, 11, 1, 9, 15, 7, 13, 5]
    );
}

#[test]
fn bayer8_layout() {
    let m = DitheringMatrix::bayer8();
    assert_eq!(m.n, 8);
    assert_eq!(m.entries.len(), 64);
    assert_eq!(m.entries[0], 0);
    assert_eq!(m.entries[1], 32);
    assert_eq!(m.entries[63], 21);
    for &e in m.entries.iter() {
        assert!(e < 64);
    }
}

#[test]
fn ordered_bit_exact_cutoffs() {
    let m = DitheringMatrix::bayer4();
    // Entry (0, 0) is 0: the scaled intensity i * 16 / 256 exceeds 0 from
    // intensity 16 on.
    assert!(!ordered_bit(&m, 15, 0, 0));
    assert!(ordered_bit(&m, 16, 0, 0));
    // Entry (0, 1) is 8: scaled intensity exceeds 8 from 144 on.
    assert!(!ordered_bit(&m, 143, 1, 0));
    assert!(ordered_bit(&m, 144, 1, 0));
    // The matrix tiles: position (4, 4) behaves like (0, 0).
    assert!(ordered_bit(&m, 16, 4, 4));
    assert!(!ordered_bit(&m, 15, 4, 4));
}

#[test]
fn ordered_bit_deterministic() {
    let m = DitheringMatrix::bayer8();
    for intensity in [0u8, 17, 100, 200, 255] {
        let first = ordered_bit(&m, intensity, 3, 5);
        let second = ordered_bit(&m, intensity, 3, 5);
        assert_eq!(first, second);
    }
}

#[test]
fn ordered_bit_monotone_in_intensity() {
    // For a fixed pixel position, raising the intensity never turns a lit
    // pixel off: the count of set bits over 0..=255 is non-decreasing.
    let m4 = DitheringMatrix::bayer4();
    let m8 = DitheringMatrix::bayer8();
    for (x, y) in [(0usize, 0usize), (1, 0), (3, 2), (7, 5)] {
        let mut prev4 = false;
        let mut prev8 = false;
        for intensity in 0..=255u8 {
            let b4 = ordered_bit(&m4, intensity, x, y);
            let b8 = ordered_bit(&m8, intensity, x, y);
            assert!(!prev4 || b4);
            assert!(!prev8 || b8);
            prev4 = b4;
            prev8 = b8;
        }
    }
}
