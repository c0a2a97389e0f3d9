//! The decoded frame and the constants of the wire format.

use vstd::prelude::*;

verus! {

/// Number of bytes in the preamble.
pub const PREAMBLE_LEN: usize = 7;

/// The synchronisation pattern that precedes every frame.
pub const PREAMBLE: [u8; 7] = [0x55, 0x55, 0x55, 0x55, 0x55, 0x55, 0x55];

/// The start-of-frame delimiter that ends the preamble.
pub const SFD: u8 = 0xAB;

/// One link-layer frame.
#[derive(Debug)]
pub struct EthFrame {
    /// Receiver address.
    pub rx_mac: [u8; 6],
    /// Transmitter address.
    pub tx_mac: [u8; 6],
    /// Length tag: the payload's byte count as a big-endian 16-bit integer.
    pub tag802: Option<[u8; 2]>,
    /// Payload bytes.
    pub payload: Vec<u8>,
}

/// A frame as plain sequences of bytes.
pub struct FrameView {
    pub rx_mac: Seq<u8>,
    pub tx_mac: Seq<u8>,
    pub tag802: Option<Seq<u8>>,
    pub payload: Seq<u8>,
}

impl View for EthFrame {
    type V = FrameView;

    open spec fn view(&self) -> FrameView {
        FrameView {
            rx_mac: self.rx_mac@,
            tx_mac: self.tx_mac@,
            tag802: match self.tag802 {
                Some(tag) => Some(tag@),
                None => None,
            },
            payload: self.payload@,
        }
    }
}

impl FrameView {
    /// The frame a decoder holds before it has read anything: zeroed addresses,
    /// a zeroed tag and no payload.
    pub open spec fn blank() -> FrameView {
        FrameView {
            rx_mac: Seq::new(6, |i: int| 0u8),
            tx_mac: Seq::new(6, |i: int| 0u8),
            tag802: Some(Seq::new(2, |i: int| 0u8)),
            payload: Seq::empty(),
        }
    }

    /// A frame as a decoder releases it: both addresses are full, the tag is
    /// present, and the payload is exactly as long as the tag says.
    pub open spec fn complete(self) -> bool {
        &&& self.rx_mac.len() == 6
        &&& self.tx_mac.len() == 6
        &&& self.tag802 matches Some(tag)
        &&& tag.len() == 2
        &&& self.payload.len() == crate::bytes::be_u16(tag)
    }
}

impl Default for EthFrame {
    /// A blank frame, with room reserved for a typical payload.
    fn default() -> (frame: Self)
        ensures
            frame@ == FrameView::blank(),
    {
        let frame = EthFrame {
            rx_mac: [0u8; 6],
            tx_mac: [0u8; 6],
            tag802: Some([0u8; 2]),
            payload: Vec::with_capacity(1500),
        };
        assert(frame@.rx_mac =~= FrameView::blank().rx_mac);
        assert(frame@.tx_mac =~= FrameView::blank().tx_mac);
        assert(frame@.tag802.unwrap() =~= FrameView::blank().tag802.unwrap());
        frame
    }
}

} // verus!
