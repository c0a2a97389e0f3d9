//! Big-endian integers as they appear on the wire.

use vstd::prelude::*;

verus! {

/// The number that two bytes spell, most significant byte first.
pub open spec fn be_u16(s: Seq<u8>) -> nat
    recommends
        s.len() == 2,
{
    (s[0] as nat) * 0x100 + (s[1] as nat)
}

/// The number that four bytes spell, most significant byte first.
pub open spec fn be_u32(s: Seq<u8>) -> nat
    recommends
        s.len() == 4,
{
    (s[0] as nat) * 0x100_0000 + (s[1] as nat) * 0x1_0000 + (s[2] as nat) * 0x100 + (s[3] as nat)
}

/// The two bytes that spell `n`, most significant byte first.
pub open spec fn be_bytes_u16(n: nat) -> Seq<u8>
    recommends
        n <= 0xFFFF,
{
    seq![(n / 0x100) as u8, (n % 0x100) as u8]
}

/// The four bytes that spell `n`, most significant byte first.
pub open spec fn be_bytes_u32(n: nat) -> Seq<u8>
    recommends
        n <= 0xFFFF_FFFF,
{
    seq![
        (n / 0x100_0000) as u8,
        (n / 0x1_0000 % 0x100) as u8,
        (n / 0x100 % 0x100) as u8,
        (n % 0x100) as u8,
    ]
}

/// Reading back what `be_bytes_u16` wrote gives the number that was written.
pub proof fn lemma_be_u16_of_bytes(n: nat)
    requires
        n <= 0xFFFF,
    ensures
        be_bytes_u16(n).len() == 2,
        be_u16(be_bytes_u16(n)) == n,
{
}

/// Reading back what `be_bytes_u32` wrote gives the number that was written.
pub proof fn lemma_be_u32_of_bytes(n: nat)
    requires
        n <= 0xFFFF_FFFF,
    ensures
        be_bytes_u32(n).len() == 4,
        be_u32(be_bytes_u32(n)) == n,
{
}

/// Decodes a big-endian 16-bit integer.
pub fn u16_from_be(bytes: [u8; 2]) -> (n: u16)
    ensures
        n as nat == be_u16(bytes@),
{
    let hi: u16 = bytes[0] as u16;
    let lo: u16 = bytes[1] as u16;
    hi * 0x100 + lo
}

/// Decodes a big-endian 32-bit integer.
pub fn u32_from_be(bytes: [u8; 4]) -> (n: u32)
    ensures
        n as nat == be_u32(bytes@),
{
    let b0: u32 = bytes[0] as u32;
    let b1: u32 = bytes[1] as u32;
    let b2: u32 = bytes[2] as u32;
    let b3: u32 = bytes[3] as u32;
    b0 * 0x100_0000 + b1 * 0x1_0000 + b2 * 0x100 + b3
}

} // verus!
