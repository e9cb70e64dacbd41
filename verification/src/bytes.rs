//! Integers as bytes with the most significant byte first.

use vstd::prelude::*;

verus! {

/// The four bytes of `x`, most significant first.
pub open spec fn be32(x: u32) -> Seq<u8> {
    seq![(x >> 24) as u8, (x >> 16) as u8, (x >> 8) as u8, x as u8]
}

/// The eight bytes of `x`, most significant first.
pub open spec fn be64(x: u64) -> Seq<u8> {
    be32((x >> 32) as u32) + be32(x as u32)
}

/// The number that four bytes spell with the most significant first.
pub open spec fn be32_value(bytes: Seq<u8>) -> u32
    recommends
        bytes.len() == 4,
{
    (bytes[0] as u32 * 0x100_0000 + bytes[1] as u32 * 0x1_0000 + bytes[2] as u32 * 0x100
        + bytes[3] as u32) as u32
}

/// `count` zero bytes.
pub open spec fn zeros(count: nat) -> Seq<u8> {
    Seq::new(count, |i: int| 0u8)
}

/// Writes `x` into `block` from `at` on, most significant byte first.
pub fn put_be32(block: &mut [u8; 32], at: usize, x: u32)
    requires
        at + 4 <= 32,
    ensures
        final(block)@ == old(block)@.subrange(0, at as int) + be32(x) + old(block)@.subrange(
            at + 4,
            32,
        ),
{
    block[at] = (x >> 24) as u8;
    block[at + 1] = (x >> 16) as u8;
    block[at + 2] = (x >> 8) as u8;
    block[at + 3] = x as u8;
    assert(block@ =~= old(block)@.subrange(0, at as int) + be32(x) + old(block)@.subrange(
        at + 4,
        32,
    ));
}

/// Reads the number that the four bytes of `block` from `at` on spell, most
/// significant byte first.
pub fn get_be32(block: &[u8; 32], at: usize) -> (x: u32)
    requires
        at + 4 <= 32,
    ensures
        x == be32_value(block@.subrange(at as int, at + 4)),
{
    block[at] as u32 * 0x100_0000 + block[at + 1] as u32 * 0x1_0000 + block[at + 2] as u32 * 0x100
        + block[at + 3] as u32
}

/// Reading what was written gives the number back.
pub proof fn lemma_be32_value_of_be32(x: u32)
    ensures
        be32_value(be32(x)) == x,
{
    let b0 = (x >> 24) as u8;
    let b1 = (x >> 16) as u8;
    let b2 = (x >> 8) as u8;
    let b3 = x as u8;
    assert(b0 as u32 * 0x100_0000 + b1 as u32 * 0x1_0000 + b2 as u32 * 0x100 + b3 as u32 == x)
        by (bit_vector)
        requires
            b0 == (x >> 24) as u8,
            b1 == (x >> 16) as u8,
            b2 == (x >> 8) as u8,
            b3 == x as u8,
    ;
}

} // verus!
