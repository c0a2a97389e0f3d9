//! The executable decoder.

use crate::bytes::{be_u16, be_u32, u16_from_be};
use crate::checksum::{checksum_matches, frame_checksum, frame_checksum_of};
use crate::frame::{EthFrame, FrameView, PREAMBLE, PREAMBLE_LEN, SFD};
use crate::model::{emitted, step, Phase};
use vstd::prelude::*;

verus! {

/// The decoder's position in the wire layout of a frame.
#[derive(Clone, Copy, Debug, PartialEq, Eq, Structural)]
pub enum DecodeState {
    Waiting,
    Preamble,
    Sfd,
    RxMac,
    TxMac,
    Tag802,
    Payload,
    Checksum,
    Finished,
    Invalid,
}

/// A streaming frame decoder: one instance per byte stream.
pub struct Decoder {
    pos: usize,
    interim: [u8; 8],
    payload_len: usize,
    frame: EthFrame,
    state: DecodeState,
}

impl View for Decoder {
    type V = Phase;

    /// The decoder's phase: its state together with the bytes of the frame in
    /// progress that count. Scratch contents left over from earlier fields are
    /// not part of it.
    closed spec fn view(&self) -> Phase {
        let rx_mac = self.frame.rx_mac@;
        let tx_mac = self.frame.tx_mac@;
        let tag = self.frame.tag802.unwrap()@;
        let payload = self.frame.payload@;
        let pos = self.pos as int;
        match self.state {
            DecodeState::Waiting => Phase::Waiting,
            DecodeState::Preamble => Phase::Preamble { matched: self.pos as nat },
            DecodeState::Sfd => Phase::Sfd,
            DecodeState::RxMac => Phase::RxMac { rx_mac: rx_mac.take(pos) },
            DecodeState::TxMac => Phase::TxMac { rx_mac, tx_mac: tx_mac.take(pos) },
            DecodeState::Tag802 => Phase::Tag802 { rx_mac, tx_mac, tag: tag.take(pos) },
            DecodeState::Payload => Phase::Payload { rx_mac, tx_mac, tag, payload },
            DecodeState::Checksum => Phase::Checksum {
                rx_mac,
                tx_mac,
                tag,
                payload,
                crc: self.interim@.take(pos),
            },
            DecodeState::Finished => Phase::Finished { frame: self.frame@ },
            DecodeState::Invalid => Phase::Invalid,
        }
    }
}

/// Whether `bytes` holds nothing but zeros from index `from` on.
pub open spec fn zero_from(bytes: Seq<u8>, from: int) -> bool {
    forall|i: int| from <= i < bytes.len() ==> bytes[i] == 0
}

impl Decoder {
    /// What every decoder built by `new` and driven by `recv_byte` satisfies.
    ///
    /// The cursor stays inside the scratch buffer and inside the field being
    /// collected. The payload never holds more bytes than the expected length,
    /// and that is at most 65535. Whatever has not been read yet is zero: the
    /// scratch and every field behind the cursor, the expected length until the
    /// tag is read, and all of the frame while the decoder is hunting. While
    /// hunting, only the leading byte remembered in the scratch tells a decoder
    /// from a fresh one.
    pub closed spec fn wf(&self) -> bool {
        let rx_mac = self.frame.rx_mac@;
        let tx_mac = self.frame.tx_mac@;
        let tag = self.frame.tag802.unwrap()@;
        let held = self.frame.payload@.len();
        let scratch = self.interim@;
        let pos = self.pos as int;
        &&& self.frame.tag802 is Some
        &&& self.pos < 8
        &&& held <= self.payload_len <= 0xFFFF
        &&& match self.state {
            DecodeState::Waiting => pos == 0 && zero_from(scratch, 0) && self.unread(),
            DecodeState::Preamble => {
                1 <= pos < PREAMBLE_LEN && zero_from(scratch, 1) && self.unread()
            },
            DecodeState::Sfd => pos == 0 && zero_from(scratch, 0) && self.unread(),
            DecodeState::RxMac => {
                &&& pos < 6
                &&& zero_from(scratch, 0)
                &&& zero_from(rx_mac, pos)
                &&& zero_from(tx_mac, 0)
                &&& zero_from(tag, 0)
                &&& self.payload_len == 0
            },
            DecodeState::TxMac => {
                &&& pos < 6
                &&& zero_from(scratch, 0)
                &&& zero_from(tx_mac, pos)
                &&& zero_from(tag, 0)
                &&& self.payload_len == 0
            },
            DecodeState::Tag802 => {
                &&& pos < 2
                &&& zero_from(scratch, 0)
                &&& zero_from(tag, pos)
                &&& self.payload_len == 0
            },
            DecodeState::Payload => {
                &&& pos == 0
                &&& zero_from(scratch, 0)
                &&& self.payload_len == be_u16(tag)
                &&& (held == 0 || held < self.payload_len)
            },
            DecodeState::Checksum => {
                &&& pos < 4
                &&& zero_from(scratch, pos)
                &&& self.payload_len == be_u16(tag)
                &&& held == self.payload_len
            },
            DecodeState::Finished => {
                &&& pos == 0
                &&& zero_from(scratch, 0)
                &&& self.payload_len == be_u16(tag)
                &&& held == self.payload_len
            },
            DecodeState::Invalid => {
                &&& pos == 4
                &&& zero_from(scratch, 4)
                &&& self.payload_len == be_u16(tag)
                &&& held == self.payload_len
            },
        }
    }

    /// Nothing of a frame has been read: the frame is blank and no length is
    /// expected.
    spec fn unread(&self) -> bool {
        &&& self.frame@ == FrameView::blank()
        &&& self.payload_len == 0
    }

    /// A well-formed decoder is always in a valid phase.
    pub proof fn lemma_wf_valid(&self)
        requires
            self.wf(),
        ensures
            self@.valid(),
    {
    }

    /// A fresh decoder, hunting for its first frame: cursor and expected length
    /// are zero, the scratch is zeroed and the frame is blank.
    pub fn new() -> (decoder: Self)
        ensures
            decoder.wf(),
            decoder@ == Phase::Waiting,
    {
        Decoder {
            pos: 0,
            state: DecodeState::Waiting,
            interim: [0u8; 8],
            payload_len: 0,
            frame: EthFrame::default(),
        }
    }

    /// Consumes one byte of the stream and hands out the frame that has been
    /// waiting, if one has.
    ///
    /// The decoder moves as `step` says. A frame is handed out exactly when the
    /// decoder stood in `Finished`, that is on the first byte after the frame's
    /// last checksum byte; the value of that byte is not looked at, and the
    /// decoder is afterwards as `new` makes it. Malformed input is never
    /// reported: a wrong preamble byte, a wrong delimiter and a failed checksum
    /// all send the decoder back to hunting, and the caller sees `None` for a
    /// rejected frame just as for a frame still in progress. This is
    /// deliberate: a stream cannot fail, only a candidate frame can. A caller
    /// that wants to count rejections can ask `state` before the call, where
    /// `Invalid` means that this byte drops a frame.
    pub fn recv_byte(&mut self, byte: u8) -> (out: Option<EthFrame>)
        requires
            old(self).wf(),
        ensures
            final(self).wf(),
            final(self)@ == step(old(self)@, byte),
            match out {
                Some(frame) => emitted(old(self)@) == Some(frame@) && frame@.complete(),
                None => emitted(old(self)@) is None,
            },
    {
        match self.state {
            DecodeState::Waiting => self.step_waiting(byte),
            DecodeState::Preamble => self.step_preamble(byte),
            DecodeState::Sfd => self.step_sfd(byte),
            DecodeState::RxMac => self.step_rx_mac(byte),
            DecodeState::TxMac => self.step_tx_mac(byte),
            DecodeState::Tag802 => self.step_tag802(byte),
            DecodeState::Payload => self.step_payload(byte),
            DecodeState::Checksum => self.step_checksum(byte),
            DecodeState::Finished => return self.step_finished(),
            DecodeState::Invalid => {
                self.state = DecodeState::Waiting;
                self.frame = EthFrame::default();
                self.clear_all();
            },
        }
        None
    }

    /// The state the next byte will be consumed in.
    pub fn state(&self) -> (state: DecodeState)
        ensures
            state == phase_state(self@),
    {
        self.state
    }

    fn clear_pos_and_interim(&mut self)
        ensures
            final(self).pos == 0,
            final(self).interim@ == Seq::new(8, |i: int| 0u8),
            final(self).payload_len == old(self).payload_len,
            final(self).frame == old(self).frame,
            final(self).state == old(self).state,
    {
        self.pos = 0;
        self.interim = [0u8; 8];
    }

    fn clear_all(&mut self)
        ensures
            final(self).pos == 0,
            final(self).interim@ == Seq::new(8, |i: int| 0u8),
            final(self).payload_len == 0,
            final(self).frame == old(self).frame,
            final(self).state == old(self).state,
    {
        self.clear_pos_and_interim();
        self.payload_len = 0;
    }

    fn step_waiting(&mut self, b: u8)
        requires
            old(self).wf(),
            old(self).state == DecodeState::Waiting,
        ensures
            final(self).wf(),
            final(self)@ == step(old(self)@, b),
            final(self).state == DecodeState::Preamble,
            final(self).pos == 1,
            final(self).interim@ == old(self).interim@.update(0, b),
            final(self).payload_len == old(self).payload_len,
            final(self).frame == old(self).frame,
    {
        self.state = DecodeState::Preamble;
        self.interim[self.pos] = b;
        self.pos += 1;
    }

    fn step_preamble(&mut self, b: u8)
        requires
            old(self).wf(),
            old(self).state == DecodeState::Preamble,
        ensures
            final(self).wf(),
            final(self)@ == step(old(self)@, b),
            final(self).payload_len == old(self).payload_len,
            final(self).frame == old(self).frame,
            final(self).state == if b != PREAMBLE@[old(self).pos as int] {
                DecodeState::Waiting
            } else if old(self).pos + 1 == PREAMBLE_LEN {
                DecodeState::Sfd
            } else {
                DecodeState::Preamble
            },
            final(self).state == DecodeState::Preamble ==> final(self).pos == old(self).pos + 1
                && final(self).interim == old(self).interim,
            final(self).state != DecodeState::Preamble ==> final(self).pos == 0 && final(self).interim@ == Seq::new(8, |i: int| 0u8),
    {
        if PREAMBLE[self.pos] != b {
            self.state = DecodeState::Waiting;
            self.clear_pos_and_interim();
            return ;
        }
        self.pos += 1;
        if self.pos == PREAMBLE_LEN {
            self.clear_pos_and_interim();
            self.state = DecodeState::Sfd;
        }
    }

    fn step_sfd(&mut self, b: u8)
        requires
            old(self).wf(),
            old(self).state == DecodeState::Sfd,
        ensures
            final(self).wf(),
            final(self)@ == step(old(self)@, b),
            final(self).state == if b == SFD {
                DecodeState::RxMac
            } else {
                DecodeState::Waiting
            },
            final(self).pos == old(self).pos,
            final(self).interim == old(self).interim,
            final(self).payload_len == old(self).payload_len,
            final(self).frame == old(self).frame,
    {
        if b == SFD {
            self.state = DecodeState::RxMac;
            assert(self.frame.rx_mac@.take(0) == Seq::<u8>::empty());
        } else {
            self.state = DecodeState::Waiting;
        }
    }

    fn step_rx_mac(&mut self, b: u8)
        requires
            old(self).wf(),
            old(self).state == DecodeState::RxMac,
        ensures
            final(self).wf(),
            final(self)@ == step(old(self)@, b),
            final(self).frame.rx_mac@ == old(self).frame.rx_mac@.update(old(self).pos as int, b),
            final(self).frame.tx_mac == old(self).frame.tx_mac,
            final(self).frame.tag802 == old(self).frame.tag802,
            final(self).frame.payload == old(self).frame.payload,
            final(self).payload_len == old(self).payload_len,
            final(self).interim == old(self).interim,
            final(self).state == if old(self).pos + 1 == 6 {
                DecodeState::TxMac
            } else {
                DecodeState::RxMac
            },
            final(self).pos == if old(self).pos + 1 == 6 {
                0
            } else {
                old(self).pos + 1
            },
    {
        self.frame.rx_mac[self.pos] = b;
        self.pos += 1;
        assert(self.frame.rx_mac@.take(self.pos as int) == old(self).frame.rx_mac@.take(
            old(self).pos as int,
        ).push(b));
        if self.pos == self.frame.rx_mac.len() {
            assert(self.frame.rx_mac@.take(6) == self.frame.rx_mac@);
            self.clear_pos_and_interim();
            self.state = DecodeState::TxMac;
            assert(self.frame.tx_mac@.take(0) == Seq::<u8>::empty());
            assert(self.interim == old(self).interim);
        }
    }

    fn step_tx_mac(&mut self, b: u8)
        requires
            old(self).wf(),
            old(self).state == DecodeState::TxMac,
        ensures
            final(self).wf(),
            final(self)@ == step(old(self)@, b),
            final(self).frame.rx_mac == old(self).frame.rx_mac,
            final(self).frame.tx_mac@ == old(self).frame.tx_mac@.update(old(self).pos as int, b),
            final(self).frame.tag802 == old(self).frame.tag802,
            final(self).frame.payload == old(self).frame.payload,
            final(self).payload_len == old(self).payload_len,
            final(self).interim == old(self).interim,
            final(self).state == if old(self).pos + 1 == 6 {
                DecodeState::Tag802
            } else {
                DecodeState::TxMac
            },
            final(self).pos == if old(self).pos + 1 == 6 {
                0
            } else {
                old(self).pos + 1
            },
    {
        self.frame.tx_mac[self.pos] = b;
        self.pos += 1;
        assert(self.frame.tx_mac@.take(self.pos as int) == old(self).frame.tx_mac@.take(
            old(self).pos as int,
        ).push(b));
        if self.pos == self.frame.tx_mac.len() {
            assert(self.frame.tx_mac@.take(6) == self.frame.tx_mac@);
            self.clear_pos_and_interim();
            self.state = DecodeState::Tag802;
            assert(self.frame.tag802.unwrap()@.take(0) == Seq::<u8>::empty());
            assert(self.interim == old(self).interim);
        }
    }

    fn step_tag802(&mut self, b: u8)
        requires
            old(self).wf(),
            old(self).state == DecodeState::Tag802,
        ensures
            final(self).wf(),
            final(self)@ == step(old(self)@, b),
            final(self).frame.rx_mac == old(self).frame.rx_mac,
            final(self).frame.tx_mac == old(self).frame.tx_mac,
            final(self).frame.tag802 matches Some(tag) && tag@ == old(self).frame.tag802.unwrap()@.update(old(self).pos as int, b),
            final(self).frame.payload == old(self).frame.payload,
            final(self).interim == old(self).interim,
            old(self).pos + 1 != 2 ==> {
                &&& final(self).state == DecodeState::Tag802
                &&& final(self).pos == old(self).pos + 1
                &&& final(self).payload_len == old(self).payload_len
            },
            old(self).pos + 1 == 2 ==> {
                &&& final(self).state == DecodeState::Payload
                &&& final(self).pos == 0
                &&& final(self).payload_len == be_u16(final(self).frame.tag802.unwrap()@)
            },
    {
        let tag = match self.frame.tag802.as_mut() {
            None => return ,
            Some(tag) => tag,
        };
        tag[self.pos] = b;
        self.pos += 1;
        assert(tag@.take(self.pos as int) == old(self).frame.tag802.unwrap()@.take(
            old(self).pos as int,
        ).push(b));
        if self.pos == tag.len() {
            assert(tag@.take(2) == tag@);
            let n = u16_from_be(*tag);
            self.payload_len = n as usize;
            self.state = DecodeState::Payload;
            self.clear_pos_and_interim();
            assert(self.frame.payload@ == Seq::<u8>::empty());
            assert(self.interim == old(self).interim);
        }
    }

    /// A byte met where the tag announced no payload is the first checksum
    /// byte; any other is payload.
    fn step_payload(&mut self, b: u8)
        requires
            old(self).wf(),
            old(self).state == DecodeState::Payload,
        ensures
            final(self).wf(),
            final(self)@ == step(old(self)@, b),
            final(self).frame.rx_mac == old(self).frame.rx_mac,
            final(self).frame.tx_mac == old(self).frame.tx_mac,
            final(self).frame.tag802 == old(self).frame.tag802,
            final(self).payload_len == old(self).payload_len,
            old(self).payload_len == 0 ==> {
                &&& final(self).state == DecodeState::Checksum
                &&& final(self).frame.payload == old(self).frame.payload
                &&& final(self).pos == 1
                &&& final(self).interim@ == old(self).interim@.update(0, b)
            },
            old(self).payload_len != 0 ==> {
                &&& final(self).frame.payload@ == old(self).frame.payload@.push(b)
                &&& final(self).pos == old(self).pos
                &&& final(self).interim == old(self).interim
                &&& final(self).state == if old(self).frame.payload@.len() + 1 == old(self).payload_len {
                    DecodeState::Checksum
                } else {
                    DecodeState::Payload
                }
            },
    {
        if self.payload_len == 0 {
            self.state = DecodeState::Checksum;
            assert(self.interim@.take(0) == Seq::<u8>::empty());
            self.step_checksum(b);
            assert(Seq::<u8>::empty().push(b) == seq![b]);
            return ;
        }
        self.frame.payload.push(b);
        if self.frame.payload.len() == self.payload_len {
            self.state = DecodeState::Checksum;
            assert(self.interim@.take(0) == Seq::<u8>::empty());
        }
    }

    fn step_checksum(&mut self, b: u8)
        requires
            old(self).wf(),
            old(self).state == DecodeState::Checksum,
        ensures
            final(self).wf(),
            final(self)@ == step(old(self)@, b),
            final(self).frame == old(self).frame,
            final(self).payload_len == old(self).payload_len,
            old(self).pos + 1 != 4 ==> {
                &&& final(self).state == DecodeState::Checksum
                &&& final(self).pos == old(self).pos + 1
                &&& final(self).interim@ == old(self).interim@.update(old(self).pos as int, b)
            },
            old(self).pos + 1 == 4 ==> {
                let crc = old(self).interim@.update(3, b).take(4);
                let sum = frame_checksum(
                    old(self).frame.rx_mac@,
                    old(self).frame.tx_mac@,
                    old(self).frame.tag802.unwrap()@,
                    old(self).frame.payload@,
                );
                if be_u32(crc) == sum as nat {
                    &&& final(self).state == DecodeState::Finished
                    &&& final(self).pos == 0
                    &&& final(self).interim@ == Seq::new(8, |i: int| 0u8)
                } else {
                    &&& final(self).state == DecodeState::Invalid
                    &&& final(self).pos == 4
                    &&& final(self).interim@ == old(self).interim@.update(3, b)
                }
            },
    {
        self.interim[self.pos] = b;
        self.pos += 1;
        assert(self.interim@.take(self.pos as int) == old(self).interim@.take(
            old(self).pos as int,
        ).push(b));
        if self.pos == 4 {
            let crc_32 = self.hash_crc32();
            let crc: [u8; 4] = [self.interim[0], self.interim[1], self.interim[2], self.interim[3]];
            assert(crc@ == self.interim@.take(4));
            if checksum_matches(crc, crc_32) {
                self.state = DecodeState::Finished;
                self.clear_pos_and_interim();
            } else {
                self.state = DecodeState::Invalid;
            }
        }
    }

    fn step_finished(&mut self) -> (out: Option<EthFrame>)
        requires
            old(self).wf(),
            old(self).state == DecodeState::Finished,
        ensures
            final(self).wf(),
            final(self)@ == Phase::Waiting,
            out == Some(old(self).frame),
            emitted(old(self)@) == Some(old(self).frame@),
            final(self).state == DecodeState::Waiting,
            final(self).pos == 0,
            final(self).interim@ == Seq::new(8, |i: int| 0u8),
            final(self).payload_len == 0,
            final(self).frame@ == FrameView::blank(),
    {
        let mut frame = EthFrame::default();
        core::mem::swap(&mut self.frame, &mut frame);
        self.clear_all();
        self.state = DecodeState::Waiting;
        Some(frame)
    }

    fn hash_crc32(&self) -> (crc: u32)
        requires
            self.frame.tag802 is Some,
        ensures
            crc == frame_checksum(
                self.frame.rx_mac@,
                self.frame.tx_mac@,
                self.frame.tag802.unwrap()@,
                self.frame.payload@,
            ),
    {
        let tag = self.frame.tag802.unwrap();
        frame_checksum_of(
            &self.frame.rx_mac,
            &self.frame.tx_mac,
            &tag,
            self.frame.payload.as_slice(),
        )
    }
}

/// The state that stands for a phase.
pub open spec fn phase_state(phase: Phase) -> DecodeState {
    match phase {
        Phase::Waiting => DecodeState::Waiting,
        Phase::Preamble { .. } => DecodeState::Preamble,
        Phase::Sfd => DecodeState::Sfd,
        Phase::RxMac { .. } => DecodeState::RxMac,
        Phase::TxMac { .. } => DecodeState::TxMac,
        Phase::Tag802 { .. } => DecodeState::Tag802,
        Phase::Payload { .. } => DecodeState::Payload,
        Phase::Checksum { .. } => DecodeState::Checksum,
        Phase::Finished { .. } => DecodeState::Finished,
        Phase::Invalid => DecodeState::Invalid,
    }
}

} // verus!
