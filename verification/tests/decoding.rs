use eth_decoder::decoder::{DecodeState, Decoder};
use eth_decoder::frame::EthFrame;

const RX: [u8; 6] = [1, 2, 3, 4, 5, 6];
const TX: [u8; 6] = [10, 11, 12, 13, 14, 15];

fn checksum(rx: &[u8; 6], tx: &[u8; 6], tag: &[u8; 2], payload: &[u8]) -> u32 {
    let mut hasher = crc32fast::Hasher::new_with_initial(0xFFFF_FFFF);
    hasher.update(rx);
    hasher.update(tx);
    hasher.update(tag);
    hasher.update(payload);
    hasher.finalize()
}

fn body(rx: &[u8; 6], tx: &[u8; 6], payload: &[u8]) -> Vec<u8> {
    let tag = (payload.len() as u16).to_be_bytes();
    let mut bytes = vec![0xAB];
    bytes.extend_from_slice(rx);
    bytes.extend_from_slice(tx);
    bytes.extend_from_slice(&tag);
    bytes.extend_from_slice(payload);
    bytes.extend_from_slice(&checksum(rx, tx, &tag, payload).to_be_bytes());
    bytes
}

fn wire(rx: &[u8; 6], tx: &[u8; 6], payload: &[u8]) -> Vec<u8> {
    let mut bytes = vec![0x55; 7];
    bytes.extend(body(rx, tx, payload));
    bytes
}

fn feed(decoder: &mut Decoder, bytes: &[u8]) -> Vec<EthFrame> {
    let mut frames = Vec::new();
    for b in bytes {
        if let Some(frame) = decoder.recv_byte(*b) {
            frames.push(frame);
        }
    }
    frames
}

#[test]
fn new_decoder_is_waiting() {
    let decoder = Decoder::new();
    assert_eq!(decoder.state(), DecodeState::Waiting);
}

#[test]
fn concrete_scenario_emits_on_the_flush_byte() {
    let mut bytes = vec![0x55, 0x55, 0x55, 0x55, 0x55, 0x55, 0x55, 0xAB];
    bytes.extend_from_slice(&RX);
    bytes.extend_from_slice(&TX);
    bytes.extend_from_slice(&[0x00, 0x04]);
    bytes.extend_from_slice(&[9, 9, 9, 9]);
    bytes.extend_from_slice(&[0xAD, 0x83, 0x62, 0xF7]);
    assert_eq!(bytes, wire(&RX, &TX, &[9, 9, 9, 9]));

    let mut decoder = Decoder::new();
    for b in &bytes {
        assert!(decoder.recv_byte(*b).is_none());
    }
    assert_eq!(decoder.state(), DecodeState::Finished);

    let frame = decoder.recv_byte(0x00).expect("the flush byte releases the frame");
    assert_eq!(frame.rx_mac, RX);
    assert_eq!(frame.tx_mac, TX);
    assert_eq!(frame.tag802, Some([0x00, 0x04]));
    assert_eq!(frame.payload, vec![9, 9, 9, 9]);
    assert_eq!(decoder.state(), DecodeState::Waiting);

    assert!(decoder.recv_byte(0x00).is_none());
}

#[test]
fn flush_byte_value_is_ignored() {
    for flush in [0x00u8, 0x55, 0xAB, 0xFF] {
        let mut decoder = Decoder::new();
        assert!(feed(&mut decoder, &wire(&RX, &TX, &[7, 8])).is_empty());
        let frame = decoder.recv_byte(flush).expect("frame");
        assert_eq!(frame.payload, vec![7, 8]);
        assert_eq!(decoder.state(), DecodeState::Waiting);
    }
}

#[test]
fn states_follow_the_wire_layout() {
    let mut decoder = Decoder::new();
    let bytes = wire(&RX, &TX, &[0x42]);
    let mut seen = Vec::new();
    for b in &bytes {
        seen.push(decoder.state());
        assert!(decoder.recv_byte(*b).is_none());
    }
    seen.push(decoder.state());
    let mut expected = vec![DecodeState::Waiting];
    expected.extend(vec![DecodeState::Preamble; 6]);
    expected.push(DecodeState::Sfd);
    expected.extend(vec![DecodeState::RxMac; 6]);
    expected.extend(vec![DecodeState::TxMac; 6]);
    expected.extend(vec![DecodeState::Tag802; 2]);
    expected.push(DecodeState::Payload);
    expected.extend(vec![DecodeState::Checksum; 4]);
    expected.push(DecodeState::Finished);
    assert_eq!(seen, expected);
}

#[test]
fn round_trip_single_byte_payload() {
    let mut bytes = wire(&RX, &TX, &[0x42]);
    assert_eq!(&bytes[bytes.len() - 4..], &[0xB0, 0x0F, 0x3B, 0xA6]);
    bytes.push(0);
    let mut decoder = Decoder::new();
    let frames = feed(&mut decoder, &bytes);
    assert_eq!(frames.len(), 1);
    assert_eq!(frames[0].rx_mac, RX);
    assert_eq!(frames[0].tx_mac, TX);
    assert_eq!(frames[0].tag802, Some([0, 1]));
    assert_eq!(frames[0].payload, vec![0x42]);
}

#[test]
fn round_trip_maximal_payload() {
    let rx = [0xFF; 6];
    let tx = [0x00; 6];
    let payload: Vec<u8> = (0..65535u32).map(|i| (i % 251) as u8).collect();
    let mut bytes = wire(&rx, &tx, &payload);
    assert_eq!(&bytes[bytes.len() - 4..], &[0xB6, 0x71, 0x15, 0x5A]);
    bytes.push(0);
    let mut decoder = Decoder::new();
    let frames = feed(&mut decoder, &bytes);
    assert_eq!(frames.len(), 1);
    assert_eq!(frames[0].rx_mac, rx);
    assert_eq!(frames[0].tx_mac, tx);
    assert_eq!(frames[0].tag802, Some([0xFF, 0xFF]));
    assert_eq!(frames[0].payload, payload);
    assert_eq!(decoder.state(), DecodeState::Waiting);
}

#[test]
fn round_trip_various_lengths() {
    for len in [1usize, 2, 3, 255, 256, 257, 1500, 4096] {
        let payload: Vec<u8> = (0..len).map(|i| (i * 7 + 3) as u8).collect();
        let mut bytes = wire(&TX, &RX, &payload);
        bytes.push(0x55);
        let mut decoder = Decoder::new();
        let frames = feed(&mut decoder, &bytes);
        assert_eq!(frames.len(), 1, "length {}", len);
        assert_eq!(frames[0].rx_mac, TX);
        assert_eq!(frames[0].tx_mac, RX);
        assert_eq!(frames[0].tag802, Some((len as u16).to_be_bytes()));
        assert_eq!(frames[0].payload, payload);
    }
}

#[test]
fn payload_that_looks_like_framing_is_kept_as_payload() {
    let payload = vec![0x55, 0x55, 0x55, 0x55, 0x55, 0x55, 0x55, 0xAB, 0x55];
    let mut bytes = wire(&RX, &TX, &payload);
    bytes.push(0);
    let mut decoder = Decoder::new();
    let frames = feed(&mut decoder, &bytes);
    assert_eq!(frames.len(), 1);
    assert_eq!(frames[0].payload, payload);
}

#[test]
fn round_trip_empty_payload() {
    let mut bytes = wire(&RX, &TX, &[]);
    assert_eq!(&bytes[bytes.len() - 4..], &[0xA7, 0xCE, 0xC4, 0x88]);
    bytes.push(0);
    let mut decoder = Decoder::new();
    let frames = feed(&mut decoder, &bytes);
    assert_eq!(frames.len(), 1);
    assert_eq!(frames[0].rx_mac, RX);
    assert_eq!(frames[0].tx_mac, TX);
    assert_eq!(frames[0].tag802, Some([0, 0]));
    assert!(frames[0].payload.is_empty());
    assert_eq!(decoder.state(), DecodeState::Waiting);
}

#[test]
fn empty_payload_takes_its_first_checksum_byte_in_the_payload_state() {
    let mut bytes = vec![0x55, 0x55, 0x55, 0x55, 0x55, 0x55, 0x55, 0xAB];
    bytes.extend_from_slice(&[0, 0, 0, 0, 0, 0]);
    bytes.extend_from_slice(&[0, 0, 0, 0, 0, 1]);
    bytes.extend_from_slice(&[0x00, 0x00]);
    let mut decoder = Decoder::new();
    assert!(feed(&mut decoder, &bytes).is_empty());
    assert_eq!(decoder.state(), DecodeState::Payload);
    assert!(decoder.recv_byte(0xFE).is_none());
    assert_eq!(decoder.state(), DecodeState::Checksum);
    assert!(feed(&mut decoder, &[0x3D, 0x95]).is_empty());
    assert_eq!(decoder.state(), DecodeState::Checksum);
    assert!(decoder.recv_byte(0xC8).is_none());
    assert_eq!(decoder.state(), DecodeState::Finished);
    let frame = decoder.recv_byte(0x00).expect("the flush byte releases the frame");
    assert_eq!(frame.rx_mac, [0; 6]);
    assert_eq!(frame.tx_mac, [0, 0, 0, 0, 0, 1]);
    assert_eq!(frame.tag802, Some([0x00, 0x00]));
    assert_eq!(frame.payload.len(), 0);
    assert_eq!(decoder.state(), DecodeState::Waiting);
}

#[test]
fn tag_is_always_followed_by_the_payload_state() {
    for tag in [[0x00u8, 0x00], [0x00, 0x01], [0x01, 0x00], [0xFF, 0xFF]] {
        let mut bytes = vec![0x55, 0x55, 0x55, 0x55, 0x55, 0x55, 0x55, 0xAB];
        bytes.extend_from_slice(&RX);
        bytes.extend_from_slice(&TX);
        bytes.extend_from_slice(&tag);
        let mut decoder = Decoder::new();
        assert!(feed(&mut decoder, &bytes).is_empty());
        assert_eq!(decoder.state(), DecodeState::Payload);
    }
}

#[test]
fn empty_payload_with_wrong_checksum_is_rejected() {
    let mut bytes = wire(&RX, &TX, &[]);
    let last = bytes.len() - 1;
    bytes[last] ^= 0x01;
    let mut decoder = Decoder::new();
    assert!(feed(&mut decoder, &bytes).is_empty());
    assert_eq!(decoder.state(), DecodeState::Invalid);
    assert!(decoder.recv_byte(0).is_none());
    assert_eq!(decoder.state(), DecodeState::Waiting);
}

#[test]
fn payload_never_passes_the_announced_length() {
    let mut bytes = wire(&RX, &TX, &[1, 2, 3]);
    bytes.push(0);
    let mut decoder = Decoder::new();
    let mut in_payload = 0;
    for b in &bytes {
        if decoder.state() == DecodeState::Payload {
            in_payload += 1;
        }
        decoder.recv_byte(*b);
    }
    assert_eq!(in_payload, 3);
}

#[test]
fn two_frames_separated_by_the_flush_byte() {
    let mut bytes = wire(&RX, &TX, &[1, 2, 3]);
    bytes.push(0);
    bytes.extend(wire(&TX, &RX, &[4, 5]));
    bytes.push(0);
    let mut decoder = Decoder::new();
    let frames = feed(&mut decoder, &bytes);
    assert_eq!(frames.len(), 2);
    assert_eq!(frames[0].rx_mac, RX);
    assert_eq!(frames[0].payload, vec![1, 2, 3]);
    assert_eq!(frames[1].rx_mac, TX);
    assert_eq!(frames[1].tag802, Some([0, 2]));
    assert_eq!(frames[1].payload, vec![4, 5]);
}

#[test]
fn frame_without_a_flush_gap_costs_the_next_one_its_preamble() {
    let mut bytes = wire(&RX, &TX, &[1, 2, 3]);
    bytes.extend(wire(&TX, &RX, &[4, 5]));
    bytes.push(0);
    let mut decoder = Decoder::new();
    let frames = feed(&mut decoder, &bytes);
    assert_eq!(frames.len(), 1);
    assert_eq!(frames[0].payload, vec![1, 2, 3]);
}
