use el320x240_36hb_sender::blocks::encode_block16;
use el320x240_36hb_sender::blocks::encode_block32;
use el320x240_36hb_sender::blocks::frame_to_blocks16;
use el320x240_36hb_sender::blocks::frame_to_blocks32;

#[test]
fn encode_block32_header_little_endian() {
    let payload = vec![0xaau8, 0xbb, 0xcc];
    let block = encode_block32(0x0102_0304, &payload);
    assert_eq!(block, vec![0x04u8, 0x03, 0x02, 0x01, 0xaa, 0xbb, 0xcc]);
}

#[test]
fn encode_block16_header_little_endian() {
    let payload = vec![0x11u8];
    let block = encode_block16(0x2544, &payload);
    assert_eq!(block, vec![0x44u8, 0x25, 0x11]);
}

#[test]
fn split_with_short_final_block() {
    // 130 bytes with 60-byte payloads: two full blocks and one 10-byte
    // tail block at offset 120.
    let frame: Vec<u8> = (0..130u8).collect();
    let blocks = frame_to_blocks32(&frame, 60);
    assert_eq!(blocks.len(), 3);
    assert_eq!(&blocks[0][0..4], &[0, 0, 0, 0]);
    assert_eq!(blocks[0].len(), 64);
    assert_eq!(&blocks[1][0..4], &[60, 0, 0, 0]);
    assert_eq!(blocks[1].len(), 64);
    assert_eq!(&blocks[2][0..4], &[120, 0, 0, 0]);
    assert_eq!(blocks[2].len(), 14);

    // Reassembling the payloads by offset reproduces the frame exactly.
    let mut rebuilt = vec![0u8; frame.len()];
    for block in &blocks {
        let offset = u32::from_le_bytes([block[0], block[1], block[2], block[3]]) as usize;
        let payload = &block[4..];
        rebuilt[offset..offset + payload.len()].copy_from_slice(payload);
    }
    assert_eq!(rebuilt, frame);
}

#[test]
fn split_empty_frame() {
    let frame: Vec<u8> = Vec::new();
    assert_eq!(frame_to_blocks32(&frame, 60).len(), 0);
    // The alternate protocol still terminates the (empty) frame.
    let blocks = frame_to_blocks16(&frame, 62);
    assert_eq!(blocks.len(), 1);
    assert_eq!(blocks[0], vec![0xffu8, 0xff]);
}

#[test]
fn split_exact_multiple() {
    let frame = vec![7u8; 120];
    let blocks = frame_to_blocks32(&frame, 60);
    assert_eq!(blocks.len(), 2);
    assert_eq!(blocks[1].len(), 64);
}

#[test]
fn compact_protocol_terminator() {
    let frame: Vec<u8> = (0..130u8).collect();
    let blocks = frame_to_blocks16(&frame, 62);
    // ceil(130 / 62) = 3 payload blocks plus the end-of-frame marker.
    assert_eq!(blocks.len(), 4);
    assert_eq!(&blocks[0][0..2], &[0, 0]);
    assert_eq!(&blocks[1][0..2], &[62, 0]);
    assert_eq!(&blocks[2][0..2], &[124, 0]);
    assert_eq!(blocks[2].len(), 2 + 6);
    assert_eq!(blocks[3], vec![0xffu8, 0xff]);

    let mut rebuilt = vec![0u8; frame.len()];
    for block in &blocks[0..3] {
        let offset = u16::from_le_bytes([block[0], block[1]]) as usize;
        let payload = &block[2..];
        rebuilt[offset..offset + payload.len()].copy_from_slice(payload);
    }
    assert_eq!(rebuilt, frame);
}

#[test]
fn display_frame_block_geometry() {
    // A full 320x240 bitmap: 9600 bytes split into exactly 160 blocks of
    // 60 payload bytes; the last block sits at offset 9540.
    let frame = vec![0x5au8; 9600];
    let blocks = frame_to_blocks32(&frame, 60);
    assert_eq!(blocks.len(), 160);
    assert_eq!(&blocks[0][0..4], &[0, 0, 0, 0]);
    assert_eq!(blocks[0].len(), 64);
    let last = &blocks[159];
    assert_eq!(
        u32::from_le_bytes([last[0], last[1], last[2], last[3]]),
        9540
    );
    assert_eq!(last.len(), 64);
}
