use el320x240_36hb_sender::diffusion::gamma_table;
use el320x240_36hb_sender::diffusion::image_dithering;

#[test]
fn gamma_table_shape() {
    let t = gamma_table();
    assert_eq!(t.len(), 256);
    assert_eq!(t[0], 0);
    assert_eq!(t[15], 1);
    assert_eq!(t[128], 56);
    assert_eq!(t[167], 100);
    assert_eq!(t[255], 255);
    let mut prev = 0i16;
    for &v in t.iter() {
        assert!(v >= prev, "gamma correction must be monotone");
        prev = v;
    }
}

#[test]
fn extremes_decide_without_error() {
    // Full-bright input: every pixel lands exactly on the white level and
    // diffuses no error.
    let gray = vec![255u8; 4];
    let rgb = image_dithering(&gray, 2, 2, 0, 255);
    assert_eq!(rgb, vec![255u8; 12]);
    // Full-dark input decides black everywhere.
    let gray = vec![0u8; 4];
    let rgb = image_dithering(&gray, 2, 2, 0, 255);
    assert_eq!(rgb, vec![0u8; 12]);
}

#[test]
fn mid_gray_diffuses_error() {
    // Intensity 167 gamma-corrects to 100. Raster order on a 2x2 frame:
    // pixel 0 decides black (error 100, an eighth is 12) and brightens its
    // right and lower neighbors to 136 and its diagonal to 124; 136 then
    // decides white (error -119, an eighth is -14), pushing the remaining
    // cells to 82 and 40; both decide black.
    let gray = vec![167u8; 4];
    let rgb = image_dithering(&gray, 2, 2, 0, 255);
    let pixels: Vec<u8> = rgb.chunks(3).map(|c| c[0]).collect();
    assert_eq!(pixels, vec![0, 255, 255, 0]);
}

#[test]
fn mixed_frame_expected_decisions() {
    let gray = vec![167u8, 30, 200, 90];
    let rgb = image_dithering(&gray, 2, 2, 0, 255);
    let pixels: Vec<u8> = rgb.chunks(3).map(|c| c[0]).collect();
    assert_eq!(pixels, vec![0, 0, 255, 0]);
}

#[test]
fn output_is_two_level_rgb_triples() {
    let gray: Vec<u8> = (0..64u8).map(|i| i.wrapping_mul(37)).collect();
    let rgb = image_dithering(&gray, 8, 8, 10, 200);
    assert_eq!(rgb.len(), 3 * 64);
    for triple in rgb.chunks(3) {
        assert_eq!(triple[0], triple[1]);
        assert_eq!(triple[1], triple[2]);
        assert!(triple[0] == 10 || triple[0] == 200);
    }
}
