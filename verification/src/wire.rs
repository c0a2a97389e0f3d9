//! Frames as byte strings on the wire.
//!
//! The layout is: seven preamble bytes, the start-of-frame delimiter, six bytes
//! of receiver address, six bytes of transmitter address, the payload length as
//! a big-endian 16-bit tag, the payload, and the checksum as a big-endian 32-bit
//! integer. Nothing here is executable: the library only decodes, and these
//! functions say what it decodes.

use crate::bytes::{be_bytes_u16, be_bytes_u32};
use crate::checksum::frame_checksum;
use crate::frame::{FrameView, PREAMBLE, PREAMBLE_LEN, SFD};
use vstd::prelude::*;

verus! {

/// The frame that carries `payload` from `tx_mac` to `rx_mac`.
pub open spec fn frame_of(rx_mac: Seq<u8>, tx_mac: Seq<u8>, payload: Seq<u8>) -> FrameView {
    FrameView { rx_mac, tx_mac, tag802: Some(be_bytes_u16(payload.len())), payload }
}

/// Where the payload starts in the wire form of a frame: behind preamble,
/// delimiter, both addresses and the tag.
pub open spec fn payload_offset() -> int {
    PREAMBLE_LEN + 1 + 6 + 6 + 2
}

/// The checksum bytes that belong to `frame`.
pub open spec fn crc_bytes(frame: FrameView) -> Seq<u8> {
    be_bytes_u32(
        frame_checksum(frame.rx_mac, frame.tx_mac, frame.tag802.unwrap(), frame.payload) as nat,
    )
}

/// A byte string laid out like a frame on the wire, with `lead` standing where
/// the first preamble byte should be and `crc` where the checksum should be.
pub open spec fn wire_with(lead: u8, frame: FrameView, crc: Seq<u8>) -> Seq<u8> {
    seq![lead] + PREAMBLE@.skip(1) + seq![SFD] + frame.rx_mac + frame.tx_mac
        + frame.tag802.unwrap() + frame.payload + crc
}

/// The wire form of `frame`: preamble, delimiter, receiver address, transmitter
/// address, tag, payload, checksum.
pub open spec fn wire(frame: FrameView) -> Seq<u8> {
    PREAMBLE@ + seq![SFD] + frame.rx_mac + frame.tx_mac + frame.tag802.unwrap() + frame.payload
        + crc_bytes(frame)
}

} // verus!
