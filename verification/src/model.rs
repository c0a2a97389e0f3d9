//! The decoder as a state machine over sequences of bytes.
//!
//! A [`Phase`] says how far into a frame the decoder is and holds exactly the
//! bytes collected so far. [`step`] consumes one byte; [`emitted`] says which
//! frame, if any, that same call hands to the caller. [`run`] and [`frames`]
//! extend both to a whole stream.

use crate::bytes::{be_u16, be_u32};
use crate::checksum::frame_checksum;
use crate::frame::{FrameView, PREAMBLE, PREAMBLE_LEN, SFD};
use vstd::prelude::*;

verus! {

/// Where the decoder stands, with what it has collected.
pub enum Phase {
    /// Hunting: the next byte is taken as the first preamble byte, whatever it is.
    Waiting,
    /// `matched` preamble bytes have been accepted.
    Preamble { matched: nat },
    /// The preamble is complete; the delimiter is due.
    Sfd,
    /// Collecting the receiver address.
    RxMac { rx_mac: Seq<u8> },
    /// Collecting the transmitter address.
    TxMac { rx_mac: Seq<u8>, tx_mac: Seq<u8> },
    /// Collecting the length tag.
    Tag802 { rx_mac: Seq<u8>, tx_mac: Seq<u8>, tag: Seq<u8> },
    /// Collecting the payload. The decoder enters this phase after every tag,
    /// also after one that announces no payload.
    Payload { rx_mac: Seq<u8>, tx_mac: Seq<u8>, tag: Seq<u8>, payload: Seq<u8> },
    /// Collecting the checksum.
    Checksum { rx_mac: Seq<u8>, tx_mac: Seq<u8>, tag: Seq<u8>, payload: Seq<u8>, crc: Seq<u8> },
    /// A frame passed its checksum and waits to be handed out.
    Finished { frame: FrameView },
    /// A frame failed its checksum and waits to be dropped.
    Invalid,
}

impl Phase {
    /// The shapes a decoder can actually be in: no field holds more bytes than
    /// its width, a field is only begun once the ones before it are full, and
    /// the payload never holds more bytes than its tag announces, which is at
    /// most 65535.
    pub open spec fn valid(self) -> bool {
        match self {
            Phase::Waiting => true,
            Phase::Preamble { matched } => 1 <= matched < PREAMBLE_LEN,
            Phase::Sfd => true,
            Phase::RxMac { rx_mac } => rx_mac.len() < 6,
            Phase::TxMac { rx_mac, tx_mac } => rx_mac.len() == 6 && tx_mac.len() < 6,
            Phase::Tag802 { rx_mac, tx_mac, tag } => {
                rx_mac.len() == 6 && tx_mac.len() == 6 && tag.len() < 2
            },
            Phase::Payload { rx_mac, tx_mac, tag, payload } => {
                &&& rx_mac.len() == 6
                &&& tx_mac.len() == 6
                &&& tag.len() == 2
                &&& (payload.len() == 0 || payload.len() < be_u16(tag))
            },
            Phase::Checksum { rx_mac, tx_mac, tag, payload, crc } => {
                &&& rx_mac.len() == 6
                &&& tx_mac.len() == 6
                &&& tag.len() == 2
                &&& payload.len() == be_u16(tag)
                &&& crc.len() < 4
            },
            Phase::Finished { frame } => frame.complete(),
            Phase::Invalid => true,
        }
    }

    /// The phases in which the decoder is hunting for a preamble and holds no
    /// part of a frame.
    pub open spec fn hunting(self) -> bool {
        self is Waiting || self is Preamble
    }
}

/// The phase after the decoder, standing in `phase`, has consumed `byte`.
///
/// A byte met in the payload phase is payload, and the phase ends when the
/// payload has reached the announced length. The one exception is deliberate:
/// where the tag announces no payload, there is nothing to collect, and the
/// byte is the first checksum byte. Appending it and comparing lengths
/// afterwards would never end the phase, and the empty frame would be lost.
/// Each byte of a frame is thus consumed in the same call whatever the length.
pub open spec fn step(phase: Phase, byte: u8) -> Phase {
    match phase {
        Phase::Waiting => Phase::Preamble { matched: 1 },
        Phase::Preamble { matched } => {
            if PREAMBLE@[matched as int] != byte {
                Phase::Waiting
            } else if matched + 1 == PREAMBLE_LEN {
                Phase::Sfd
            } else {
                Phase::Preamble { matched: matched + 1 }
            }
        },
        Phase::Sfd => {
            if byte == SFD {
                Phase::RxMac { rx_mac: Seq::empty() }
            } else {
                Phase::Waiting
            }
        },
        Phase::RxMac { rx_mac } => {
            let rx_mac = rx_mac.push(byte);
            if rx_mac.len() == 6 {
                Phase::TxMac { rx_mac, tx_mac: Seq::empty() }
            } else {
                Phase::RxMac { rx_mac }
            }
        },
        Phase::TxMac { rx_mac, tx_mac } => {
            let tx_mac = tx_mac.push(byte);
            if tx_mac.len() == 6 {
                Phase::Tag802 { rx_mac, tx_mac, tag: Seq::empty() }
            } else {
                Phase::TxMac { rx_mac, tx_mac }
            }
        },
        Phase::Tag802 { rx_mac, tx_mac, tag } => {
            let tag = tag.push(byte);
            if tag.len() == 2 {
                Phase::Payload { rx_mac, tx_mac, tag, payload: Seq::empty() }
            } else {
                Phase::Tag802 { rx_mac, tx_mac, tag }
            }
        },
        Phase::Payload { rx_mac, tx_mac, tag, payload } => {
            if be_u16(tag) == 0 {
                Phase::Checksum { rx_mac, tx_mac, tag, payload, crc: seq![byte] }
            } else {
                let payload = payload.push(byte);
                if payload.len() == be_u16(tag) {
                    Phase::Checksum { rx_mac, tx_mac, tag, payload, crc: Seq::empty() }
                } else {
                    Phase::Payload { rx_mac, tx_mac, tag, payload }
                }
            }
        },
        Phase::Checksum { rx_mac, tx_mac, tag, payload, crc } => {
            let crc = crc.push(byte);
            if crc.len() != 4 {
                Phase::Checksum { rx_mac, tx_mac, tag, payload, crc }
            } else if be_u32(crc) == frame_checksum(rx_mac, tx_mac, tag, payload) as nat {
                Phase::Finished {
                    frame: FrameView { rx_mac, tx_mac, tag802: Some(tag), payload },
                }
            } else {
                Phase::Invalid
            }
        },
        Phase::Finished { frame } => Phase::Waiting,
        Phase::Invalid => Phase::Waiting,
    }
}

/// The frame that the decoder hands out when it consumes a byte in `phase`.
/// Only a finished frame is ever handed out, and the byte that triggers it is
/// not looked at.
pub open spec fn emitted(phase: Phase) -> Option<FrameView> {
    match phase {
        Phase::Finished { frame } => Some(frame),
        _ => None,
    }
}

/// The phase after consuming all of `bytes`, in order, starting from `phase`.
pub open spec fn run(phase: Phase, bytes: Seq<u8>) -> Phase
    decreases bytes.len(),
{
    if bytes.len() == 0 {
        phase
    } else {
        step(run(phase, bytes.drop_last()), bytes.last())
    }
}

/// The frames handed out, in order, while consuming `bytes` from `phase`.
pub open spec fn frames(phase: Phase, bytes: Seq<u8>) -> Seq<FrameView>
    decreases bytes.len(),
{
    if bytes.len() == 0 {
        Seq::empty()
    } else {
        let before = frames(phase, bytes.drop_last());
        match emitted(run(phase, bytes.drop_last())) {
            Some(frame) => before.push(frame),
            None => before,
        }
    }
}

} // verus!
