use el320x240_36hb_sender::packing::pack_bits;
use el320x240_36hb_sender::packing::unpack_bits;

#[test]
fn pack_single_byte_msb_first() {
    let bits = vec![true, false, false, false, false, false, false, true];
    let packed = pack_bits(&bits);
    assert_eq!(packed, vec![0b1000_0001u8]);
}

#[test]
fn pack_two_bytes() {
    let mut bits = vec![true, false, false, false, false, false, false, true];
    bits.extend(vec![false, true, true, false, false, false, false, false]);
    let packed = pack_bits(&bits);
    assert_eq!(packed, vec![0b1000_0001u8, 0b0110_0000u8]);
}

#[test]
fn pack_all_set_and_all_clear() {
    let bits = vec![true; 16];
    assert_eq!(pack_bits(&bits), vec![0xffu8, 0xffu8]);
    let bits = vec![false; 24];
    assert_eq!(pack_bits(&bits), vec![0u8, 0u8, 0u8]);
}

#[test]
fn unpack_exact_bits() {
    let bytes = vec![0b1010_0000u8];
    let bits = unpack_bits(&bytes);
    assert_eq!(
        bits,
        vec![true, false, true, false, false, false, false, false]
    );
}

#[test]
fn pack_unpack_round_trip() {
    // A bit pattern of length 8k comes back unchanged after packing
    // MSB-first and unpacking again.
    let mut bits: Vec<bool> = Vec::new();
    for i in 0..64usize {
        bits.push((i * 7 + i / 3) % 5 < 2);
    }
    let packed = pack_bits(&bits);
    assert_eq!(packed.len(), 8);
    let unpacked = unpack_bits(&packed);
    assert_eq!(unpacked, bits);
}

#[test]
fn pack_empty() {
    let bits: Vec<bool> = Vec::new();
    assert_eq!(pack_bits(&bits), Vec::<u8>::new());
    assert_eq!(unpack_bits(&Vec::new()), Vec::<bool>::new());
}
