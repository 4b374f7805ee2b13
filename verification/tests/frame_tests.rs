use el320x240_36hb_sender::algorithm::DitherAlgorithm;
use el320x240_36hb_sender::config::DitherConfig;
use el320x240_36hb_sender::frame::pack_frame;
use el320x240_36hb_sender::frame::pack_frame_ordered;
use el320x240_36hb_sender::frame::pack_frame_threshold;
use el320x240_36hb_sender::matrix::DitheringMatrix;
use el320x240_36hb_sender::plan::PlanError;

#[test]
fn threshold_frame_exact_bytes() {
    let cfg = DitherConfig::new(8, 2, 0, 255).unwrap();
    // Row one: alternating bright/dark pixels; row two: all bright.
    let mut gray = vec![0u8; 16];
    for x in 0..8usize {
        gray[x] = if x % 2 == 0 { 255 } else { 0 };
    }
    for x in 8..16usize {
        gray[x] = 200;
    }
    let packed = pack_frame_threshold(&gray, &cfg);
    assert_eq!(packed, vec![0b1010_1010u8, 0xffu8]);
}

#[test]
fn threshold_frame_display_size() {
    // The full display frame packs into exactly 320 * 240 / 8 bytes.
    let cfg = DitherConfig::new(320, 240, 0, 255).unwrap();
    let gray = vec![255u8; 320 * 240];
    let packed = pack_frame_threshold(&gray, &cfg);
    assert_eq!(packed.len(), 9600);
    assert!(packed.iter().all(|&b| b == 0xff));
}

#[test]
fn ordered_frame_exact_bytes() {
    let cfg = DitherConfig::new(8, 1, 0, 255).unwrap();
    let m = DitheringMatrix::bayer4();
    // Intensity 100 scales to 100 * 16 / 256 = 6, which exceeds the
    // first-row entries 0, 2, 4 and 5 of the tiled 4x4 matrix
    // (0, 8, 2, 10, 0, 8, 2, 10) but not 8 or 10.
    let gray = vec![100u8; 8];
    let packed = pack_frame_ordered(&gray, &cfg, &m);
    assert_eq!(packed, vec![0b1010_1010u8]);
}

#[test]
fn pack_frame_dispatches_by_algorithm() {
    let cfg = DitherConfig::new(8, 1, 0, 255).unwrap();
    let m = DitheringMatrix::bayer4();
    let gray = vec![255u8; 8];
    let t = pack_frame(DitherAlgorithm::Threshold, &gray, &cfg, &m).unwrap();
    assert_eq!(t, vec![0xffu8]);
    let o = pack_frame(DitherAlgorithm::Ordered, &gray, &cfg, &m).unwrap();
    // 255 scales to 15, above every first-row entry of the 4x4 matrix.
    assert_eq!(o, vec![0xffu8]);
    assert!(matches!(
        pack_frame(DitherAlgorithm::Pinwheel, &gray, &cfg, &m),
        Err(PlanError::UnimplementedAlgorithm)
    ));
}
