//! The frame check sequence: a CRC-32 over the addressed fields.

use crate::bytes::{be_u32, u32_from_be};
use vstd::prelude::*;

verus! {

/// The CRC state a frame's checksum starts from.
///
/// A state here is what `crc32fast` calls one: the checksum of the bytes
/// absorbed so far, in finished form. The shift register behind it holds the
/// complement, so starting from this state means starting with a register of
/// zero, and the checksum that comes out is the complement of the register at
/// the end. A frame's checksum is therefore not the everyday CRC-32 of its
/// fields, which starts from state zero.
pub const CRC_INIT: u32 = 0xFFFF_FFFF;

/// The CRC-32 (IEEE) state reached from `state` after absorbing `bytes`.
///
/// This is the value `crc32fast` computes; the library never looks inside it.
pub uninterp spec fn crc32_extend(state: u32, bytes: Seq<u8>) -> u32;

/// The checksum that must trail a frame with these fields: the CRC-32 started
/// at `CRC_INIT` and carried over receiver address, transmitter address, length
/// tag and payload, in that order.
pub open spec fn frame_checksum(
    rx_mac: Seq<u8>,
    tx_mac: Seq<u8>,
    tag: Seq<u8>,
    payload: Seq<u8>,
) -> u32 {
    crc32_extend(crc32_extend(crc32_extend(crc32_extend(CRC_INIT, rx_mac), tx_mac), tag), payload)
}

/// Trusted: `crc32fast::Hasher::new_with_initial`, `Hasher::update` and
/// `Hasher::finalize`, called in that order on one hasher.
///
/// `new_with_initial` stores `state` as the hasher's CRC state, `update` folds
/// `bytes` into it and `finalize` hands the state back. The contract only gives
/// that value its name, `crc32_extend(state, bytes@)`: the same state and bytes
/// always give the same CRC. None of the three calls panics.
#[verifier::external_body]
pub(crate) fn crc32_update(state: u32, bytes: &[u8]) -> (next: u32)
    ensures
        next == crc32_extend(state, bytes@),
{
    let mut hasher = crc32fast::Hasher::new_with_initial(state);
    hasher.update(bytes);
    hasher.finalize()
}

/// Computes the checksum that must trail a frame with these fields.
pub fn frame_checksum_of(rx_mac: &[u8; 6], tx_mac: &[u8; 6], tag: &[u8; 2], payload: &[u8]) -> (crc:
    u32)
    ensures
        crc == frame_checksum(rx_mac@, tx_mac@, tag@, payload@),
{
    let crc = crc32_update(CRC_INIT, rx_mac);
    let crc = crc32_update(crc, tx_mac);
    let crc = crc32_update(crc, tag);
    crc32_update(crc, payload)
}

/// Whether the four checksum bytes read off the wire, taken as a big-endian
/// integer, are exactly the checksum computed over the received fields.
pub fn checksum_matches(received: [u8; 4], computed: u32) -> (ok: bool)
    ensures
        ok == (be_u32(received@) == computed as nat),
{
    u32_from_be(received) == computed
}

} // verus!
