use eth_decoder::decoder::{DecodeState, Decoder};
use eth_decoder::frame::EthFrame;

const RX: [u8; 6] = [0xDE, 0xAD, 0xBE, 0xEF, 0x00, 0x01];
const TX: [u8; 6] = [0xCA, 0xFE, 0xBA, 0xBE, 0x00, 0x02];

fn frame_bytes(lead: u8, payload: &[u8]) -> Vec<u8> {
    let tag = (payload.len() as u16).to_be_bytes();
    let mut hasher = crc32fast::Hasher::new_with_initial(0xFFFF_FFFF);
    hasher.update(&RX);
    hasher.update(&TX);
    hasher.update(&tag);
    hasher.update(payload);
    let crc = hasher.finalize();
    let mut bytes = vec![lead, 0x55, 0x55, 0x55, 0x55, 0x55, 0x55, 0xAB];
    bytes.extend_from_slice(&RX);
    bytes.extend_from_slice(&TX);
    bytes.extend_from_slice(&tag);
    bytes.extend_from_slice(payload);
    bytes.extend_from_slice(&crc.to_be_bytes());
    bytes
}

fn feed_all(decoder: &mut Decoder, bytes: &[u8]) -> Vec<EthFrame> {
    let mut frames = Vec::new();
    for b in bytes {
        if let Some(frame) = decoder.recv_byte(*b) {
            frames.push(frame);
        }
    }
    frames
}

#[test]
fn garbage_without_preamble_bytes_emits_nothing() {
    let mut decoder = Decoder::new();
    let garbage: Vec<u8> = (0..1000u32).map(|i| (i % 256) as u8).filter(|b| *b != 0x55).collect();
    for b in &garbage {
        assert!(decoder.recv_byte(*b).is_none());
        let state = decoder.state();
        assert!(state == DecodeState::Waiting || state == DecodeState::Preamble);
    }
}

#[test]
fn frame_after_even_garbage_is_decoded() {
    let mut decoder = Decoder::new();
    let garbage = [0x00, 0x01, 0xAB, 0xFF, 0x13, 0x37];
    assert!(feed_all(&mut decoder, &garbage).is_empty());
    assert_eq!(decoder.state(), DecodeState::Waiting);
    let mut bytes = frame_bytes(0x55, &[1, 2, 3, 4, 5]);
    bytes.push(0);
    let frames = feed_all(&mut decoder, &bytes);
    assert_eq!(frames.len(), 1);
    assert_eq!(frames[0].rx_mac, RX);
    assert_eq!(frames[0].tx_mac, TX);
    assert_eq!(frames[0].payload, vec![1, 2, 3, 4, 5]);
}

#[test]
fn garbage_ending_mid_preamble_swallows_the_next_frame() {
    let mut decoder = Decoder::new();
    let garbage = [0x00, 0x01, 0xAB];
    assert!(feed_all(&mut decoder, &garbage).is_empty());
    assert_eq!(decoder.state(), DecodeState::Preamble);
    let mut bytes = frame_bytes(0x55, &[1, 2, 3, 4, 5]);
    bytes.push(0);
    assert!(feed_all(&mut decoder, &bytes).is_empty());
}

#[test]
fn any_byte_may_stand_for_the_first_preamble_byte() {
    for lead in [0x00u8, 0x54, 0x55, 0xAB, 0xFF] {
        let mut decoder = Decoder::new();
        let mut bytes = frame_bytes(lead, &[0xA0, 0xA1]);
        bytes.push(0);
        let frames = feed_all(&mut decoder, &bytes);
        assert_eq!(frames.len(), 1, "lead {:#x}", lead);
        assert_eq!(frames[0].payload, vec![0xA0, 0xA1]);
    }
}

#[test]
fn stray_byte_before_a_full_preamble_shifts_the_delimiter() {
    let mut decoder = Decoder::new();
    assert!(decoder.recv_byte(0x00).is_none());
    assert_eq!(decoder.state(), DecodeState::Preamble);
    assert!(feed_all(&mut decoder, &[0x55; 6]).is_empty());
    assert_eq!(decoder.state(), DecodeState::Sfd);
    assert!(decoder.recv_byte(0x55).is_none());
    assert_eq!(decoder.state(), DecodeState::Waiting);
}

#[test]
fn preamble_mismatch_returns_to_waiting() {
    let mut decoder = Decoder::new();
    assert!(feed_all(&mut decoder, &[0x55, 0x55, 0x55]).is_empty());
    assert_eq!(decoder.state(), DecodeState::Preamble);
    assert!(decoder.recv_byte(0x54).is_none());
    assert_eq!(decoder.state(), DecodeState::Waiting);
}

#[test]
fn delimiter_mismatch_returns_to_waiting() {
    let mut decoder = Decoder::new();
    assert!(feed_all(&mut decoder, &[0x55; 7]).is_empty());
    assert_eq!(decoder.state(), DecodeState::Sfd);
    assert!(decoder.recv_byte(0xAA).is_none());
    assert_eq!(decoder.state(), DecodeState::Waiting);
}

#[test]
fn corrupted_payload_byte_is_rejected() {
    let payload = [10u8, 20, 30, 40, 50, 60];
    for at in 0..payload.len() {
        let mut bytes = frame_bytes(0x55, &payload);
        bytes[8 + 6 + 6 + 2 + at] ^= 0x01;
        let mut decoder = Decoder::new();
        assert!(feed_all(&mut decoder, &bytes).is_empty());
        assert_eq!(decoder.state(), DecodeState::Invalid);
        assert!(decoder.recv_byte(0).is_none());
        assert_eq!(decoder.state(), DecodeState::Waiting);
    }
}

#[test]
fn corrupted_checksum_byte_is_rejected() {
    let mut bytes = frame_bytes(0x55, &[1, 2, 3]);
    let last = bytes.len() - 1;
    bytes[last] = bytes[last].wrapping_add(1);
    bytes.push(0);
    let mut decoder = Decoder::new();
    assert!(feed_all(&mut decoder, &bytes).is_empty());
    assert_eq!(decoder.state(), DecodeState::Waiting);
}

#[test]
fn corrupted_address_byte_is_rejected() {
    let mut bytes = frame_bytes(0x55, &[1, 2, 3]);
    bytes[8] ^= 0x80;
    bytes.push(0);
    let mut decoder = Decoder::new();
    assert!(feed_all(&mut decoder, &bytes).is_empty());
}

#[test]
fn frame_after_a_rejected_one_is_decoded_clean() {
    let mut bytes = frame_bytes(0x55, &[0xEE; 32]);
    bytes[8 + 6 + 6 + 2 + 5] ^= 0xFF;
    bytes.push(0);
    bytes.extend(frame_bytes(0x55, &[7, 7, 7]));
    bytes.push(0);
    let mut decoder = Decoder::new();
    let frames = feed_all(&mut decoder, &bytes);
    assert_eq!(frames.len(), 1);
    assert_eq!(frames[0].rx_mac, RX);
    assert_eq!(frames[0].tx_mac, TX);
    assert_eq!(frames[0].tag802, Some([0, 3]));
    assert_eq!(frames[0].payload, vec![7, 7, 7]);
}

#[test]
fn checksum_of_other_initial_state_is_rejected() {
    let payload = [1u8, 2, 3];
    let tag = [0u8, 3];
    let mut hasher = crc32fast::Hasher::new();
    hasher.update(&RX);
    hasher.update(&TX);
    hasher.update(&tag);
    hasher.update(&payload);
    let crc = hasher.finalize();
    let mut bytes = frame_bytes(0x55, &payload);
    let n = bytes.len();
    bytes[n - 4..].copy_from_slice(&crc.to_be_bytes());
    bytes.push(0);
    let mut decoder = Decoder::new();
    assert!(feed_all(&mut decoder, &bytes).is_empty());
}

#[test]
fn little_endian_checksum_is_rejected() {
    let mut bytes = frame_bytes(0x55, &[1, 2, 3]);
    let n = bytes.len();
    bytes[n - 4..].reverse();
    bytes.push(0);
    let mut decoder = Decoder::new();
    assert!(feed_all(&mut decoder, &bytes).is_empty());
}
