//! SHA-256 over whole 32-byte blocks, as computed by the `sha2raw` crate.
//!
//! Everything in this module is believed, not proved: the digest is treated
//! as an unknown function of the message, and the hasher as an accumulator
//! of the blocks it was given.

use vstd::prelude::*;

verus! {

/// The hasher of `sha2raw`, carried through as an opaque value.
#[verifier::external_type_specification]
#[verifier::external_body]
pub struct ExSha256(sha2raw::Sha256);

/// The SHA-256 digest of `message`, a whole number of 32-byte blocks: what
/// `sha2raw::Sha256::finish` returns once the hasher has absorbed `message`.
/// `sha2raw::Sha256::finish_with` pads and counts its last block as if the
/// hasher had absorbed it too, so it returns the digest of the longer
/// message.
pub uninterp spec fn sha256(message: Seq<u8>) -> Seq<u8>;

/// The bytes that `hasher` has been given so far through
/// `sha2raw::Sha256::input`, in order. The hasher keeps a running state and
/// a count of them, not the bytes themselves.
pub uninterp spec fn absorbed(hasher: sha2raw::Sha256) -> Seq<u8>;

/// No message that the hasher can take is longer than this many bytes: the
/// hasher counts the bits it has absorbed in 64 bits.
pub const MAX_MESSAGE_LEN: u64 = 0x1fff_ffff_ffff_ffff;

/// The blocks of `blocks`, one after the other.
pub open spec fn concat_blocks(blocks: Seq<&[u8]>) -> Seq<u8>
    decreases blocks.len(),
{
    if blocks.len() == 0 {
        Seq::empty()
    } else {
        concat_blocks(blocks.drop_last()) + blocks.last()@
    }
}

/// Whether every block of `blocks` holds exactly 32 bytes.
pub open spec fn all_blocks_whole(blocks: Seq<&[u8]>) -> bool {
    forall|i: int| 0 <= i < blocks.len() ==> (#[trigger] blocks[i])@.len() == 32
}

/// `sha2raw::Sha256::new`: a hasher that has absorbed nothing.
#[verifier::external_body]
pub(crate) fn new_hasher() -> (hasher: sha2raw::Sha256)
    ensures
        absorbed(hasher) == Seq::<u8>::empty(),
{
    sha2raw::Sha256::new()
}

/// `sha2raw::Sha256::input`: the hasher absorbs the blocks, in order, after
/// what it had absorbed before. It takes 32-byte blocks in pairs, and fewer
/// bytes in all than it can count the bits of.
#[verifier::external_body]
pub(crate) fn absorb(hasher: &mut sha2raw::Sha256, blocks: &[&[u8]])
    requires
        blocks@.len() % 2 == 0,
        all_blocks_whole(blocks@),
        absorbed(*old(hasher)).len() + 32 * blocks@.len() <= MAX_MESSAGE_LEN,
    ensures
        absorbed(*final(hasher)) == absorbed(*old(hasher)) + concat_blocks(blocks@),
{
    hasher.input(blocks)
}

/// `sha2raw::Sha256::finish`: the digest of what the hasher has absorbed,
/// 32 bytes long.
#[verifier::external_body]
pub(crate) fn finish(hasher: sha2raw::Sha256) -> (digest: [u8; 32])
    ensures
        digest@ == sha256(absorbed(hasher)),
{
    hasher.finish()
}

/// `sha2raw::Sha256::finish_with`: the digest of what the hasher has
/// absorbed followed by one last 32-byte block, for messages of an odd
/// number of blocks.
#[verifier::external_body]
pub(crate) fn finish_with(hasher: sha2raw::Sha256, last: &[u8]) -> (digest: [u8; 32])
    requires
        last@.len() == 32,
        absorbed(hasher).len() + 32 <= MAX_MESSAGE_LEN,
    ensures
        digest@ == sha256(absorbed(hasher) + last@),
{
    hasher.finish_with(last)
}

} // verus!
