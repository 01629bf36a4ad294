use serframe::codec::{decode, decode_checked, encode, Cmd, FrameError};

fn frame(station: u8, opcode: u8, payload: &[u8]) -> Vec<u8> {
    encode(station, opcode, &payload.to_vec())
}

#[test]
fn encode_read_selector_frame() {
    let got = frame(0, 0x90, &[0, 1]);
    assert_eq!(got, vec![0xAA, 0x00, 0x03, 0x90, 0x00, 0x01, 0x92, 0xBB]);
}

#[test]
fn encode_empty_payload() {
    let got = frame(0, 0x83, &[]);
    assert_eq!(got, vec![0xAA, 0x00, 0x01, 0x83, 0x82, 0xBB]);
}

#[test]
fn opcodes_are_fixed() {
    assert_eq!(Cmd::SysGetSernum.opcode(), 0x83);
    assert_eq!(Cmd::Read.opcode(), 0x90);
    assert_eq!(Cmd::Write.opcode(), 0x91);
}

#[test]
fn decode_accepts_encoded_frame() {
    let buf = frame(0, 0x90, &[0, 1]);
    let (status, payload) = decode(&buf).expect("valid frame");
    assert_eq!(status, 0x90);
    assert_eq!(payload, vec![0x00, 0x01]);
}

#[test]
fn round_trip_all_payload_lengths() {
    for n in 0..=127usize {
        let payload: Vec<u8> = (0..n).map(|i| (i * 7 + 3) as u8).collect();
        let buf = encode(0, 0x91, &payload);
        assert_eq!(buf.len(), n + 6);
        let (status, got) = decode(&buf).expect("valid frame");
        assert_eq!(status, 0x91);
        assert_eq!(got, payload);
    }
}

#[test]
fn round_trip_all_stations_and_statuses() {
    for b in 0..=255u16 {
        let b = b as u8;
        let buf = frame(b, b, &[b, 0x55]);
        let (status, payload) = decode(&buf).expect("valid frame");
        assert_eq!(status, b);
        assert_eq!(payload, vec![b, 0x55]);
    }
}

#[test]
fn trailing_bytes_past_frame_end_are_ignored() {
    // The fixed receive buffer is larger than any frame; decoding reads
    // only as far as the length byte announces.
    let mut buf = frame(0, 0x00, &[1, 2, 3, 4]);
    buf.resize(129, 0xEE);
    let (status, payload) = decode(&buf).expect("valid frame");
    assert_eq!(status, 0x00);
    assert_eq!(payload, vec![1, 2, 3, 4]);
}

#[test]
fn every_single_bit_flip_outside_len_byte_is_detected() {
    let good = frame(0, 0x90, &[0x12, 0x34, 0x56]);
    for pos in 0..good.len() {
        if pos == 2 {
            // Flipping the length byte re-frames the buffer instead of
            // corrupting a fixed field; it is not part of the guarantee.
            continue;
        }
        for bit in 0..8 {
            let mut bad = good.clone();
            bad[pos] ^= 1 << bit;
            assert_eq!(
                decode(&bad),
                Err(FrameError::Corrupted),
                "flip at byte {pos} bit {bit} went undetected"
            );
        }
    }
}

#[test]
fn corrupted_start_marker_is_rejected() {
    let mut buf = frame(0, 0x90, &[0, 1]);
    buf[0] = 0xAB;
    assert_eq!(decode(&buf), Err(FrameError::Corrupted));
}

#[test]
fn corrupted_end_marker_is_rejected() {
    let mut buf = frame(0, 0x90, &[0, 1]);
    let last = buf.len() - 1;
    buf[last] = 0xBA;
    assert_eq!(decode(&buf), Err(FrameError::Corrupted));
}

#[test]
fn corrupted_checksum_is_rejected() {
    let mut buf = frame(0, 0x90, &[0, 1]);
    let bcc = buf.len() - 2;
    buf[bcc] ^= 0xFF;
    assert_eq!(decode(&buf), Err(FrameError::Corrupted));
}

#[test]
fn decode_checked_rejects_short_buffers() {
    assert_eq!(decode_checked(&vec![]), Err(FrameError::Corrupted));
    assert_eq!(decode_checked(&vec![0xAA, 0x00]), Err(FrameError::Corrupted));
    // Length byte announces more bytes than the buffer holds.
    assert_eq!(
        decode_checked(&vec![0xAA, 0x00, 0x7F, 0x90, 0x00, 0xBB]),
        Err(FrameError::Corrupted)
    );
    // Length byte zero cannot cover the command byte.
    assert_eq!(
        decode_checked(&vec![0xAA, 0x00, 0x00, 0x90, 0x00, 0xBB]),
        Err(FrameError::Corrupted)
    );
}

#[test]
fn decode_checked_accepts_valid_frame() {
    let buf = frame(0, 0x83, &[9, 8, 7, 6, 5, 4, 3, 2]);
    let (status, payload) = decode_checked(&buf).expect("valid frame");
    assert_eq!(status, 0x83);
    assert_eq!(payload, vec![9, 8, 7, 6, 5, 4, 3, 2]);
}
