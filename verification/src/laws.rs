//! Theorems about whole byte streams.
//!
//! Everything here is stated over [`run`] and [`frames`], the model of feeding
//! a decoder one byte after another, and therefore holds of every
//! [`Decoder`](crate::decoder::Decoder) driven through `recv_byte`.

use crate::bytes::{be_u16, be_u32, lemma_be_u16_of_bytes, lemma_be_u32_of_bytes};
use crate::checksum::frame_checksum;
use crate::frame::{FrameView, PREAMBLE, PREAMBLE_LEN, SFD};
use crate::model::{emitted, frames, run, step, Phase};
use crate::wire::{crc_bytes, frame_of, payload_offset, wire, wire_with};
use vstd::prelude::*;

verus! {

/// Feeding one more byte is one more step, and hands out what the phase before
/// that step held ready.
pub proof fn lemma_run_push(phase: Phase, bytes: Seq<u8>, byte: u8)
    ensures
        run(phase, bytes.push(byte)) == step(run(phase, bytes), byte),
        frames(phase, bytes.push(byte)) == match emitted(run(phase, bytes)) {
            Some(frame) => frames(phase, bytes).push(frame),
            None => frames(phase, bytes),
        },
{
    assert(bytes.push(byte).drop_last() =~= bytes);
}

/// Feeding a single byte is a single step that hands out what `phase` held.
pub proof fn lemma_run_one(phase: Phase, byte: u8)
    ensures
        run(phase, seq![byte]) == step(phase, byte),
        frames(phase, seq![byte]) == match emitted(phase) {
            Some(frame) => seq![frame],
            None => Seq::empty(),
        },
{
    assert(seq![byte] =~= Seq::<u8>::empty().push(byte));
    lemma_run_push(phase, Seq::empty(), byte);
    assert(run(phase, Seq::<u8>::empty()) == phase);
    assert(frames(phase, Seq::<u8>::empty()) =~= Seq::<FrameView>::empty());
    if let Some(frame) = emitted(phase) {
        assert(Seq::<FrameView>::empty().push(frame) =~= seq![frame]);
    }
}

/// A stream may be cut anywhere: feeding `first + second` is feeding `first`
/// and then feeding `second` to the decoder as `first` left it.
pub proof fn lemma_run_concat(phase: Phase, first: Seq<u8>, second: Seq<u8>)
    ensures
        run(phase, first + second) == run(run(phase, first), second),
        frames(phase, first + second) == frames(phase, first) + frames(
            run(phase, first),
            second,
        ),
    decreases second.len(),
{
    if second.len() == 0 {
        assert(first + second =~= first);
        assert(frames(phase, first) + Seq::<FrameView>::empty() =~= frames(phase, first));
    } else {
        let head = second.drop_last();
        lemma_run_concat(phase, first, head);
        assert((first + second).drop_last() =~= first + head);
        assert((first + second).last() == second.last());
        let mid = run(phase, first);
        match emitted(run(mid, head)) {
            Some(frame) => {
                assert((frames(phase, first) + frames(mid, head)).push(frame) =~= frames(
                    phase,
                    first,
                ) + frames(mid, head).push(frame));
            },
            None => {},
        }
    }
}

/// Preamble bytes carry a decoder that has matched `matched` of them forward,
/// up to the delimiter.
proof fn lemma_match_preamble(matched: nat, bytes: Seq<u8>)
    requires
        1 <= matched < PREAMBLE_LEN,
        matched + bytes.len() <= PREAMBLE_LEN,
        forall|i: int| 0 <= i < bytes.len() ==> bytes[i] == 0x55,
    ensures
        run(Phase::Preamble { matched }, bytes) == if matched + bytes.len() == PREAMBLE_LEN {
            Phase::Sfd
        } else {
            Phase::Preamble { matched: matched + bytes.len() }
        },
        frames(Phase::Preamble { matched }, bytes) == Seq::<FrameView>::empty(),
    decreases bytes.len(),
{
    if bytes.len() > 0 {
        lemma_match_preamble(matched, bytes.drop_last());
        assert(PREAMBLE@[matched + bytes.len() - 1] == 0x55);
    }
}

/// Bytes that fit the receiver address are collected into it.
proof fn lemma_collect_rx_mac(held: Seq<u8>, bytes: Seq<u8>)
    requires
        held.len() < 6,
        held.len() + bytes.len() <= 6,
    ensures
        run(Phase::RxMac { rx_mac: held }, bytes) == if held.len() + bytes.len() == 6 {
            Phase::TxMac { rx_mac: held + bytes, tx_mac: Seq::empty() }
        } else {
            Phase::RxMac { rx_mac: held + bytes }
        },
        frames(Phase::RxMac { rx_mac: held }, bytes) == Seq::<FrameView>::empty(),
    decreases bytes.len(),
{
    if bytes.len() == 0 {
        assert(held + bytes =~= held);
    } else {
        lemma_collect_rx_mac(held, bytes.drop_last());
        assert(held + bytes =~= (held + bytes.drop_last()).push(bytes.last()));
    }
}

/// Bytes that fit the transmitter address are collected into it.
proof fn lemma_collect_tx_mac(rx_mac: Seq<u8>, held: Seq<u8>, bytes: Seq<u8>)
    requires
        held.len() < 6,
        held.len() + bytes.len() <= 6,
    ensures
        run(Phase::TxMac { rx_mac, tx_mac: held }, bytes) == if held.len() + bytes.len() == 6 {
            Phase::Tag802 { rx_mac, tx_mac: held + bytes, tag: Seq::empty() }
        } else {
            Phase::TxMac { rx_mac, tx_mac: held + bytes }
        },
        frames(Phase::TxMac { rx_mac, tx_mac: held }, bytes) == Seq::<FrameView>::empty(),
    decreases bytes.len(),
{
    if bytes.len() == 0 {
        assert(held + bytes =~= held);
    } else {
        lemma_collect_tx_mac(rx_mac, held, bytes.drop_last());
        assert(held + bytes =~= (held + bytes.drop_last()).push(bytes.last()));
    }
}

/// Bytes that fit the length tag are collected into it, and a full tag opens
/// the payload.
proof fn lemma_collect_tag(rx_mac: Seq<u8>, tx_mac: Seq<u8>, held: Seq<u8>, bytes: Seq<u8>)
    requires
        held.len() < 2,
        held.len() + bytes.len() <= 2,
    ensures
        run(Phase::Tag802 { rx_mac, tx_mac, tag: held }, bytes) == if held.len() + bytes.len()
            == 2 {
            Phase::Payload { rx_mac, tx_mac, tag: held + bytes, payload: Seq::empty() }
        } else {
            Phase::Tag802 { rx_mac, tx_mac, tag: held + bytes }
        },
        frames(Phase::Tag802 { rx_mac, tx_mac, tag: held }, bytes) == Seq::<FrameView>::empty(),
    decreases bytes.len(),
{
    if bytes.len() == 0 {
        assert(held + bytes =~= held);
    } else {
        lemma_collect_tag(rx_mac, tx_mac, held, bytes.drop_last());
        assert(held + bytes =~= (held + bytes.drop_last()).push(bytes.last()));
    }
}

/// Bytes that fit the announced length are collected into the payload.
proof fn lemma_collect_payload(
    rx_mac: Seq<u8>,
    tx_mac: Seq<u8>,
    tag: Seq<u8>,
    held: Seq<u8>,
    bytes: Seq<u8>,
)
    requires
        held.len() < be_u16(tag),
        held.len() + bytes.len() <= be_u16(tag),
    ensures
        run(Phase::Payload { rx_mac, tx_mac, tag, payload: held }, bytes) == if held.len()
            + bytes.len() == be_u16(tag) {
            Phase::Checksum { rx_mac, tx_mac, tag, payload: held + bytes, crc: Seq::empty() }
        } else {
            Phase::Payload { rx_mac, tx_mac, tag, payload: held + bytes }
        },
        frames(Phase::Payload { rx_mac, tx_mac, tag, payload: held }, bytes) == Seq::<
            FrameView,
        >::empty(),
    decreases bytes.len(),
{
    if bytes.len() == 0 {
        assert(held + bytes =~= held);
    } else {
        lemma_collect_payload(rx_mac, tx_mac, tag, held, bytes.drop_last());
        assert(held + bytes =~= (held + bytes.drop_last()).push(bytes.last()));
    }
}

/// Four checksum bytes settle the frame: it is finished if they spell the
/// checksum of the collected fields, and invalid if they do not.
proof fn lemma_collect_crc(
    rx_mac: Seq<u8>,
    tx_mac: Seq<u8>,
    tag: Seq<u8>,
    payload: Seq<u8>,
    held: Seq<u8>,
    bytes: Seq<u8>,
)
    requires
        held.len() < 4,
        held.len() + bytes.len() <= 4,
    ensures
        run(Phase::Checksum { rx_mac, tx_mac, tag, payload, crc: held }, bytes) == if held.len()
            + bytes.len() != 4 {
            Phase::Checksum { rx_mac, tx_mac, tag, payload, crc: held + bytes }
        } else if be_u32(held + bytes) == frame_checksum(rx_mac, tx_mac, tag, payload) as nat {
            Phase::Finished { frame: FrameView { rx_mac, tx_mac, tag802: Some(tag), payload } }
        } else {
            Phase::Invalid
        },
        frames(Phase::Checksum { rx_mac, tx_mac, tag, payload, crc: held }, bytes) == Seq::<
            FrameView,
        >::empty(),
    decreases bytes.len(),
{
    if bytes.len() == 0 {
        assert(held + bytes =~= held);
    } else {
        lemma_collect_crc(rx_mac, tx_mac, tag, payload, held, bytes.drop_last());
        assert(held + bytes =~= (held + bytes.drop_last()).push(bytes.last()));
    }
}

/// A byte string laid out like a frame takes a hunting decoder through every
/// field without handing anything out, and leaves it with the frame finished if
/// the trailing bytes spell the checksum of the fields, and invalid otherwise.
pub proof fn lemma_frame_attempt(lead: u8, frame: FrameView, crc: Seq<u8>)
    requires
        frame.complete(),
        crc.len() == 4,
    ensures
        run(Phase::Waiting, wire_with(lead, frame, crc)) == if be_u32(crc) == frame_checksum(
            frame.rx_mac,
            frame.tx_mac,
            frame.tag802.unwrap(),
            frame.payload,
        ) as nat {
            Phase::Finished { frame }
        } else {
            Phase::Invalid
        },
        frames(Phase::Waiting, wire_with(lead, frame, crc)) == Seq::<FrameView>::empty(),
{
    let rx_mac = frame.rx_mac;
    let tx_mac = frame.tx_mac;
    let tag = frame.tag802.unwrap();
    let payload = frame.payload;
    let none = Seq::<u8>::empty();
    let start = Phase::Waiting;

    let to_lead = seq![lead];
    lemma_run_one(start, lead);

    let rest = PREAMBLE@.skip(1);
    assert forall|i: int| 0 <= i < rest.len() implies rest[i] == 0x55 by {
        assert(rest[i] == PREAMBLE@[i + 1]);
    }
    lemma_match_preamble(1, rest);
    let to_preamble = to_lead + rest;
    lemma_run_concat(start, to_lead, rest);
    assert(frames(start, to_preamble) =~= Seq::<FrameView>::empty());

    lemma_run_one(Phase::Sfd, SFD);
    let to_sfd = to_preamble + seq![SFD];
    lemma_run_concat(start, to_preamble, seq![SFD]);
    assert(frames(start, to_sfd) =~= Seq::<FrameView>::empty());

    lemma_collect_rx_mac(none, rx_mac);
    assert(none + rx_mac =~= rx_mac);
    let to_rx = to_sfd + rx_mac;
    lemma_run_concat(start, to_sfd, rx_mac);
    assert(frames(start, to_rx) =~= Seq::<FrameView>::empty());

    lemma_collect_tx_mac(rx_mac, none, tx_mac);
    assert(none + tx_mac =~= tx_mac);
    let to_tx = to_rx + tx_mac;
    lemma_run_concat(start, to_rx, tx_mac);
    assert(frames(start, to_tx) =~= Seq::<FrameView>::empty());

    lemma_collect_tag(rx_mac, tx_mac, none, tag);
    assert(none + tag =~= tag);
    let to_tag = to_tx + tag;
    lemma_run_concat(start, to_tx, tag);
    assert(frames(start, to_tag) =~= Seq::<FrameView>::empty());

    let to_payload = to_tag + payload;
    let to_crc = to_payload + crc;
    if payload.len() == 0 {
        assert(to_payload =~= to_tag);
        assert(payload =~= none);
        let opened = Phase::Payload { rx_mac, tx_mac, tag, payload };
        let first = seq![crc[0]];
        let others = crc.skip(1);
        lemma_run_one(opened, crc[0]);
        lemma_collect_crc(rx_mac, tx_mac, tag, payload, first, others);
        lemma_run_concat(opened, first, others);
        assert(first + others =~= crc);
        assert(frames(opened, crc) =~= Seq::<FrameView>::empty());
    } else {
        lemma_collect_payload(rx_mac, tx_mac, tag, none, payload);
        assert(none + payload =~= payload);
        lemma_run_concat(start, to_tag, payload);
        lemma_collect_crc(rx_mac, tx_mac, tag, payload, none, crc);
        assert(none + crc =~= crc);
    }
    assert(frames(start, to_payload) =~= Seq::<FrameView>::empty());
    lemma_run_concat(start, to_payload, crc);
    assert(frames(start, to_crc) =~= Seq::<FrameView>::empty());

    assert(to_crc == wire_with(lead, frame, crc));
}

/// Every payload of at most 65535 bytes has its frame, and that frame is
/// complete.
pub proof fn lemma_frame_of_complete(rx_mac: Seq<u8>, tx_mac: Seq<u8>, payload: Seq<u8>)
    requires
        rx_mac.len() == 6,
        tx_mac.len() == 6,
        payload.len() <= 0xFFFF,
    ensures
        frame_of(rx_mac, tx_mac, payload).complete(),
{
    lemma_be_u16_of_bytes(payload.len());
}

/// The wire form of a frame is the frame-shaped byte string that leads with a
/// preamble byte and ends in the frame's own checksum.
pub proof fn lemma_wire_is_wire_with(frame: FrameView)
    ensures
        wire(frame) == wire_with(0x55, frame, crc_bytes(frame)),
{
    assert(PREAMBLE@ =~= seq![0x55u8] + PREAMBLE@.skip(1));
}

/// Wherever a stream has left the decoder waiting, a frame with a payload of
/// 0 to 65535 bytes that follows on the wire is decoded: nothing is handed out
/// while its bytes arrive, the decoder holds it finished after its last
/// checksum byte, and the next byte, whatever it is, releases exactly that
/// frame and leaves the decoder waiting again. The first preamble byte may be
/// any byte at all.
pub proof fn lemma_frame_after(before: Seq<u8>, lead: u8, frame: FrameView, flush: u8)
    requires
        run(Phase::Waiting, before) == Phase::Waiting,
        frame.complete(),
    ensures
        ({
            let bytes = wire_with(lead, frame, crc_bytes(frame));
            &&& run(Phase::Waiting, before + bytes) == Phase::Finished { frame }
            &&& frames(Phase::Waiting, before + bytes) == frames(Phase::Waiting, before)
            &&& run(Phase::Waiting, before + bytes.push(flush)) == Phase::Waiting
            &&& frames(Phase::Waiting, before + bytes.push(flush)) == frames(
                Phase::Waiting,
                before,
            ).push(frame)
        }),
{
    let crc = crc_bytes(frame);
    let bytes = wire_with(lead, frame, crc);
    let sum = frame_checksum(frame.rx_mac, frame.tx_mac, frame.tag802.unwrap(), frame.payload);
    lemma_be_u32_of_bytes(sum as nat);
    lemma_frame_attempt(lead, frame, crc);
    lemma_run_concat(Phase::Waiting, before, bytes);
    assert(frames(Phase::Waiting, before) + Seq::<FrameView>::empty() =~= frames(
        Phase::Waiting,
        before,
    ));
    lemma_run_push(Phase::Waiting, before + bytes, flush);
    assert((before + bytes).push(flush) =~= before + bytes.push(flush));
}

/// Round trip: the wire form of any frame with a payload of 0 to 65535 bytes,
/// fed to a fresh decoder and followed by one more byte, yields that frame and
/// nothing else, with addresses, tag and payload as they were encoded.
pub proof fn lemma_round_trip(frame: FrameView, flush: u8)
    requires
        frame.complete(),
    ensures
        run(Phase::Waiting, wire(frame)) == (Phase::Finished { frame }),
        frames(Phase::Waiting, wire(frame)) == Seq::<FrameView>::empty(),
        run(Phase::Waiting, wire(frame).push(flush)) == Phase::Waiting,
        frames(Phase::Waiting, wire(frame).push(flush)) == seq![frame],
{
    let none = Seq::<u8>::empty();
    lemma_wire_is_wire_with(frame);
    lemma_frame_after(none, 0x55, frame, flush);
    assert(none + wire(frame) =~= wire(frame));
    assert(none + wire(frame).push(flush) =~= wire(frame).push(flush));
    assert(frames(Phase::Waiting, none).push(frame) =~= seq![frame]);
}

/// Checksum gate: a frame-shaped byte string whose last four bytes do not spell
/// the checksum of the fields before them is dropped. No frame is handed out,
/// neither while it arrives nor on the byte after it, and that byte leaves the
/// decoder waiting for the next frame.
pub proof fn lemma_checksum_gate(lead: u8, frame: FrameView, crc: Seq<u8>, flush: u8)
    requires
        frame.complete(),
        crc.len() == 4,
        be_u32(crc) != frame_checksum(
            frame.rx_mac,
            frame.tx_mac,
            frame.tag802.unwrap(),
            frame.payload,
        ) as nat,
    ensures
        run(Phase::Waiting, wire_with(lead, frame, crc)) == Phase::Invalid,
        run(Phase::Waiting, wire_with(lead, frame, crc).push(flush)) == Phase::Waiting,
        frames(Phase::Waiting, wire_with(lead, frame, crc).push(flush)) == Seq::<
            FrameView,
        >::empty(),
{
    lemma_frame_attempt(lead, frame, crc);
    lemma_run_push(Phase::Waiting, wire_with(lead, frame, crc), flush);
}

/// Where a payload byte of a frame's wire form is overwritten and the checksum
/// of the fields as they then read differs from the one on the wire, the frame
/// is dropped: the stream yields nothing, and the byte after it leaves the
/// decoder waiting.
pub proof fn lemma_corrupted_payload_is_dropped(frame: FrameView, at: int, byte: u8, flush: u8)
    requires
        frame.complete(),
        0 <= at < frame.payload.len(),
        frame_checksum(
            frame.rx_mac,
            frame.tx_mac,
            frame.tag802.unwrap(),
            frame.payload.update(at, byte),
        ) != frame_checksum(frame.rx_mac, frame.tx_mac, frame.tag802.unwrap(), frame.payload),
    ensures
        frames(Phase::Waiting, wire(frame).update(payload_offset() + at, byte).push(flush)) == Seq::<
            FrameView,
        >::empty(),
        run(Phase::Waiting, wire(frame).update(payload_offset() + at, byte).push(flush))
            == Phase::Waiting,
{
    let crc = crc_bytes(frame);
    let received = FrameView { payload: frame.payload.update(at, byte), ..frame };
    let sum = frame_checksum(frame.rx_mac, frame.tx_mac, frame.tag802.unwrap(), frame.payload);
    lemma_be_u32_of_bytes(sum as nat);
    lemma_wire_is_wire_with(frame);
    assert(wire(frame).update(payload_offset() + at, byte) =~= wire_with(0x55, received, crc));
    lemma_checksum_gate(0x55, received, crc, flush);
}

/// After a frame has been dropped for its checksum and one more byte has been
/// consumed, the next frame on the wire is decoded as if nothing had happened.
pub proof fn lemma_frame_after_rejection(
    lead: u8,
    rejected: FrameView,
    crc: Seq<u8>,
    gap: u8,
    frame: FrameView,
    flush: u8,
)
    requires
        rejected.complete(),
        crc.len() == 4,
        be_u32(crc) != frame_checksum(
            rejected.rx_mac,
            rejected.tx_mac,
            rejected.tag802.unwrap(),
            rejected.payload,
        ) as nat,
        frame.complete(),
    ensures
        frames(
            Phase::Waiting,
            wire_with(lead, rejected, crc).push(gap) + wire(frame).push(flush),
        ) == seq![frame],
        run(Phase::Waiting, wire_with(lead, rejected, crc).push(gap) + wire(frame).push(flush))
            == Phase::Waiting,
{
    let before = wire_with(lead, rejected, crc).push(gap);
    lemma_checksum_gate(lead, rejected, crc, gap);
    lemma_wire_is_wire_with(frame);
    lemma_frame_after(before, 0x55, frame, flush);
    assert(Seq::<FrameView>::empty().push(frame) =~= seq![frame]);
}

/// Garbage that never completes a preamble: after every prefix of it, a
/// decoder that started out waiting is still hunting.
pub open spec fn never_syncs(garbage: Seq<u8>) -> bool {
    forall|n: int|
        0 <= n <= garbage.len() ==> (#[trigger] run(Phase::Waiting, garbage.take(n))).hunting()
}

/// Garbage that never completes a preamble makes the decoder hand out nothing,
/// at any point of it, and leaves it hunting.
pub proof fn lemma_garbage_is_absorbed(garbage: Seq<u8>, n: int)
    requires
        never_syncs(garbage),
        0 <= n <= garbage.len(),
    ensures
        frames(Phase::Waiting, garbage.take(n)) == Seq::<FrameView>::empty(),
        run(Phase::Waiting, garbage.take(n)).hunting(),
    decreases n,
{
    if n > 0 {
        lemma_garbage_is_absorbed(garbage, n - 1);
        assert(garbage.take(n).drop_last() =~= garbage.take(n - 1));
        assert(run(Phase::Waiting, garbage.take(n - 1)).hunting());
    }
}

/// Resynchronisation: if garbage that never completes a preamble leaves the
/// decoder waiting, the frame that follows it on the wire is decoded, and it is
/// the only frame that the whole stream yields.
pub proof fn lemma_resync_after_garbage(garbage: Seq<u8>, frame: FrameView, flush: u8)
    requires
        never_syncs(garbage),
        run(Phase::Waiting, garbage) == Phase::Waiting,
        frame.complete(),
    ensures
        frames(Phase::Waiting, garbage + wire(frame).push(flush)) == seq![frame],
        run(Phase::Waiting, garbage + wire(frame).push(flush)) == Phase::Waiting,
{
    lemma_garbage_is_absorbed(garbage, garbage.len() as int);
    assert(garbage.take(garbage.len() as int) =~= garbage);
    lemma_wire_is_wire_with(frame);
    lemma_frame_after(garbage, 0x55, frame, flush);
    assert(Seq::<FrameView>::empty().push(frame) =~= seq![frame]);
}

/// Bytes none of which is the preamble byte never complete a preamble: the
/// decoder takes every other one of them as a first preamble byte and falls
/// back on the next, so it is waiting again exactly after an even number of
/// them.
pub proof fn lemma_no_preamble_byte_never_syncs(garbage: Seq<u8>)
    requires
        forall|i: int| 0 <= i < garbage.len() ==> garbage[i] != 0x55,
    ensures
        never_syncs(garbage),
        run(Phase::Waiting, garbage) == if garbage.len() % 2 == 0 {
            Phase::Waiting
        } else {
            Phase::Preamble { matched: 1 }
        },
    decreases garbage.len(),
{
    if garbage.len() == 0 {
        assert forall|n: int| 0 <= n <= garbage.len() implies (#[trigger] run(
            Phase::Waiting,
            garbage.take(n),
        )).hunting() by {
            assert(garbage.take(n) =~= garbage);
        }
    } else {
        let head = garbage.drop_last();
        lemma_no_preamble_byte_never_syncs(head);
        assert(PREAMBLE@[1] == 0x55);
        assert forall|n: int| 0 <= n <= garbage.len() implies (#[trigger] run(
            Phase::Waiting,
            garbage.take(n),
        )).hunting() by {
            if n == garbage.len() {
                assert(garbage.take(n) =~= garbage);
            } else {
                assert(garbage.take(n) =~= head.take(n));
            }
        }
    }
}

/// A valid phase never holds more payload than its tag announces, and so never
/// more than 65535 bytes.
pub proof fn lemma_payload_is_bounded(phase: Phase)
    requires
        phase.valid(),
    ensures
        match phase {
            Phase::Payload { tag, payload, .. } => payload.len() <= be_u16(tag) <= 0xFFFF,
            Phase::Checksum { tag, payload, .. } => payload.len() == be_u16(tag) <= 0xFFFF,
            Phase::Finished { frame } => frame.payload.len() <= 0xFFFF,
            _ => true,
        },
{
}

/// One step keeps a valid phase valid, and what it hands out is a complete
/// frame.
pub proof fn lemma_step_valid(phase: Phase, byte: u8)
    requires
        phase.valid(),
    ensures
        step(phase, byte).valid(),
        emitted(phase) matches Some(frame) ==> frame.complete(),
{
}

/// However long the stream, a decoder that starts in a valid phase stays in
/// one, and every frame it hands out is complete: both addresses are full and
/// the payload is exactly as long as the tag says.
pub proof fn lemma_run_valid(phase: Phase, bytes: Seq<u8>)
    requires
        phase.valid(),
    ensures
        run(phase, bytes).valid(),
        forall|i: int|
            0 <= i < frames(phase, bytes).len() ==> (#[trigger] frames(phase, bytes)[i]).complete(),
    decreases bytes.len(),
{
    if bytes.len() > 0 {
        let head = bytes.drop_last();
        lemma_run_valid(phase, head);
        lemma_step_valid(run(phase, head), bytes.last());
        assert forall|i: int| 0 <= i < frames(phase, bytes).len() implies (#[trigger] frames(
            phase,
            bytes,
        )[i]).complete() by {
            if i < frames(phase, head).len() {
                assert(frames(phase, bytes)[i] == frames(phase, head)[i]);
            }
        }
    }
}

} // verus!
