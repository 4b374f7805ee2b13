use el320x240_36hb_sender::rgb::pack_rgb_threshold;
use el320x240_36hb_sender::rgb::threshold_to_rgb;

#[test]
fn expand_to_black_white_triples() {
    let gray = vec![0u8, 100, 101, 255];
    let rgb = threshold_to_rgb(&gray, 100);
    assert_eq!(
        rgb,
        vec![0u8, 0, 0, 0, 0, 0, 0xff, 0xff, 0xff, 0xff, 0xff, 0xff]
    );
}

#[test]
fn pack_rgb_exact_byte() {
    // Eight pixels, alternating bright and dark.
    let mut frame: Vec<u8> = Vec::new();
    for k in 0..8usize {
        let v = if k % 2 == 0 { 0xffu8 } else { 0u8 };
        frame.extend([v, v, v]);
    }
    let packed = pack_rgb_threshold(&frame, 128);
    assert_eq!(packed, vec![0b1010_1010u8]);
}

#[test]
fn pack_rgb_pads_final_byte() {
    // Nine bright pixels: the second byte holds only the ninth pixel in
    // its most significant bit; the padding bits stay clear.
    let mut frame: Vec<u8> = Vec::new();
    for _ in 0..9usize {
        frame.extend([0xffu8, 0xff, 0xff]);
    }
    let packed = pack_rgb_threshold(&frame, 0);
    assert_eq!(packed, vec![0xffu8, 0b1000_0000u8]);
}

#[test]
fn pack_rgb_sums_channels() {
    // A pixel is lit when its three samples sum above three times the
    // cutoff: (100, 100, 101) sums to 301 > 300, (100, 100, 100) does not.
    let mut frame = vec![100u8, 100, 101];
    frame.extend([100u8, 100, 100]);
    frame.extend([0u8; 18]);
    let packed = pack_rgb_threshold(&frame, 100);
    assert_eq!(packed, vec![0b1000_0000u8]);
}

#[test]
fn round_trip_through_preview_path() {
    // Thresholding a grayscale frame to RGB and re-packing it gives the
    // same bits as the pixels that lay above the cutoff.
    let gray = vec![10u8, 200, 10, 200, 200, 200, 10, 10];
    let rgb = threshold_to_rgb(&gray, 128);
    let packed = pack_rgb_threshold(&rgb, 128);
    assert_eq!(packed, vec![0b0101_1100u8]);
}
