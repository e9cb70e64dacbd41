//! Hashing the parents of a node into its label, several at a time.

use vstd::prelude::*;
use crate::domain::{is_element, lemma_le_value_bound, lemma_modulus_range, pow256};
use crate::hash::{
    absorb, absorbed, all_blocks_whole, concat_blocks, finish, finish_with, new_hasher, sha256,
    MAX_MESSAGE_LEN,
};
use crate::node::{has_node, node_slice, node_value};

verus! {

/// The nodes of `layer` at the indices `parents`, one after the other.
pub open spec fn parent_values(parents: Seq<u32>, layer: Seq<u8>) -> Seq<u8>
    decreases parents.len(),
{
    if parents.len() == 0 {
        Seq::empty()
    } else {
        parent_values(parents.drop_last(), layer) + node_value(layer, parents.last() as int)
    }
}

/// Whether `layer` holds a node at each of the indices `parents`.
pub open spec fn parents_in_layer(parents: Seq<u32>, layer: Seq<u8>) -> bool {
    forall|i: int| 0 <= i < parents.len() ==> has_node(layer, #[trigger] parents[i] as int)
}

/// The 32 bytes of a hash with the two highest bits of the last cleared.
pub open spec fn truncated(hash: Seq<u8>) -> Seq<u8> {
    Seq::new(
        32,
        |i: int|
            if i == 31 {
                hash[31] & 0x3f
            } else {
                hash[i]
            },
    )
}

/// The values of some parents followed by the values of more parents are
/// the values of all of them.
pub proof fn lemma_parent_values_concat(first: Seq<u32>, second: Seq<u32>, layer: Seq<u8>)
    ensures
        parent_values(first + second, layer) == parent_values(first, layer) + parent_values(
            second,
            layer,
        ),
    decreases second.len(),
{
    if second.len() == 0 {
        assert(first + second =~= first);
        assert(parent_values(first, layer) + Seq::<u8>::empty() =~= parent_values(first, layer));
    } else {
        lemma_parent_values_concat(first, second.drop_last(), layer);
        assert((first + second).drop_last() =~= first + second.drop_last());
        assert((parent_values(first, layer) + parent_values(second.drop_last(), layer))
            + node_value(layer, second.last() as int) =~= parent_values(first, layer) + (
        parent_values(second.drop_last(), layer) + node_value(layer, second.last() as int)));
    }
}

/// The values of `n` parents take up `n` nodes.
pub proof fn lemma_parent_values_len(parents: Seq<u32>, layer: Seq<u8>)
    requires
        parents_in_layer(parents, layer),
    ensures
        parent_values(parents, layer).len() == 32 * parents.len(),
    decreases parents.len(),
{
    if parents.len() > 0 {
        assert(has_node(layer, parents[parents.len() - 1] as int));
        lemma_parent_values_len(parents.drop_last(), layer);
    }
}

/// Blocks that are the nodes of some parents, put together, are the values
/// of those parents.
proof fn lemma_blocks_are_parent_values(blocks: Seq<&[u8]>, parents: Seq<u32>, layer: Seq<u8>)
    requires
        blocks.len() == parents.len(),
        forall|i: int|
            0 <= i < blocks.len() ==> (#[trigger] blocks[i])@ == node_value(layer, parents[i] as int),
    ensures
        concat_blocks(blocks) == parent_values(parents, layer),
    decreases blocks.len(),
{
    if blocks.len() > 0 {
        lemma_blocks_are_parent_values(blocks.drop_last(), parents.drop_last(), layer);
        assert(blocks.last() == blocks[blocks.len() - 1]);
    }
}

/// A truncated hash is a domain element.
pub proof fn lemma_truncated_is_element(hash: Seq<u8>)
    ensures
        is_element(truncated(hash)),
{
    let t = truncated(hash);
    let top = hash[31];
    assert(top & 0x3f <= 0x3f) by (bit_vector);
    lemma_modulus_range();
    lemma_le_value_bound(t.drop_last());
    assert(t.last() <= 0x3f);
    assert(t.last() as nat * pow256(31) <= 0x3f * pow256(31)) by (nonlinear_arith)
        requires
            t.last() <= 0x3f,
    ;
}

/// Truncates a 256 bit hash to fit in the field: clears its two highest
/// bits.
pub fn truncate_hash(hash: &mut [u8; 32])
    ensures
        final(hash)@ == truncated(old(hash)@),
        is_element(final(hash)@),
{
    hash[31] = hash[31] & 0x3f;
    proof {
        lemma_truncated_is_element(old(hash)@);
        assert(hash@ =~= truncated(old(hash)@));
    }
}

/// Lets `hasher` absorb two blocks, `first` before `second`.
pub(crate) fn absorb_pair(hasher: &mut sha2raw::Sha256, first: &[u8], second: &[u8])
    requires
        first@.len() == 32,
        second@.len() == 32,
        absorbed(*old(hasher)).len() + 64 <= MAX_MESSAGE_LEN,
    ensures
        absorbed(*final(hasher)) == absorbed(*old(hasher)) + first@ + second@,
{
    let pair: [&[u8]; 2] = [first, second];
    proof {
        let blocks = pair@;
        let head = blocks.drop_last();
        assert(blocks.len() == 2 && blocks[0] == first && blocks[1] == second);
        assert(head.len() == 1 && head.last() == first);
        assert(concat_blocks(head.drop_last()) =~= Seq::<u8>::empty());
        assert(concat_blocks(head) =~= first@);
        assert(concat_blocks(blocks) =~= first@ + second@);
        assert(absorbed(*hasher) + (first@ + second@) =~= absorbed(*hasher) + first@ + second@);
    }
    absorb(hasher, pair.as_slice());
}

/// A hasher that has absorbed the prefix of a node and the replica
/// identifier, ready for the node's parents.
pub fn preloaded_hasher(prefix: &[u8; 32], replica_id: &[u8; 32]) -> (hasher: sha2raw::Sha256)
    ensures
        absorbed(hasher) == prefix@ + replica_id@,
{
    let mut hasher = new_hasher();
    absorb_pair(&mut hasher, prefix.as_slice(), replica_id.as_slice());
    assert(Seq::<u8>::empty() + prefix@ + replica_id@ =~= prefix@ + replica_id@);
    hasher
}

/// The digest of two blocks, `first` before `second`.
pub(crate) fn hash_pair(first: &[u8], second: &[u8]) -> (digest: [u8; 32])
    requires
        first@.len() == 32,
        second@.len() == 32,
    ensures
        digest@ == sha256(first@ + second@),
{
    let mut hasher = new_hasher();
    absorb_pair(&mut hasher, first, second);
    assert(Seq::<u8>::empty() + first@ + second@ =~= first@ + second@);
    finish(hasher)
}

/// Borrows the nodes of `count` parents, from the one at `start` on.
fn gather<'a>(parents: &[u32], layer: &'a [u8], start: usize, count: usize) -> (blocks: Vec<
    &'a [u8],
>)
    requires
        start + count <= parents@.len(),
        parents_in_layer(parents@, layer@),
    ensures
        blocks@.len() == count,
        all_blocks_whole(blocks@),
        concat_blocks(blocks@) == parent_values(
            parents@.subrange(start as int, start + count),
            layer@,
        ),
{
    let mut blocks: Vec<&'a [u8]> = Vec::new();
    let mut i: usize = 0;
    while i < count
        invariant
            0 <= i <= count,
            start + count <= parents@.len(),
            parents_in_layer(parents@, layer@),
            blocks@.len() == i,
            forall|j: int|
                0 <= j < i ==> (#[trigger] blocks@[j])@ == node_value(
                    layer@,
                    parents@[start + j] as int,
                ),
        decreases count - i,
    {
        assert(parents@.len() == parents.len());
        let parent = parents[start + i];
        assert(has_node(layer@, parents@[start + i] as int));
        assert(layer@.len() == layer.len());
        blocks.push(node_slice(layer, parent as usize));
        i += 1;
    }
    proof {
        let taken = parents@.subrange(start as int, start + count);
        assert forall|j: int| 0 <= j < blocks@.len() implies (#[trigger] blocks@[j])@
            == node_value(layer@, taken[j] as int) by {}
        lemma_blocks_are_parent_values(blocks@, taken, layer@);
    }
    blocks
}

/// Hashes the nodes of `layer` at the indices `parents`, in order, on top
/// of what `hasher` has absorbed, and returns the digest.
///
/// The hasher takes its blocks in pairs, so the parents are absorbed in
/// batches of the largest even number up to `k`, and of one pair at least.
/// The digest does not depend on `k`: it is the digest of the parents
/// absorbed one at a time.
pub fn batch_hash(
    k: usize,
    degree: usize,
    hasher: sha2raw::Sha256,
    parents: &[u32],
    layer: &[u8],
) -> (digest: [u8; 32])
    requires
        parents@.len() == degree,
        parents_in_layer(parents@, layer@),
        absorbed(hasher).len() + 32 * degree <= MAX_MESSAGE_LEN,
    ensures
        digest@ == sha256(absorbed(hasher) + parent_values(parents@, layer@)),
{
    let ghost start = absorbed(hasher);
    let mut hasher = hasher;
    let batch: usize = if k < 2 {
        2
    } else {
        k - k % 2
    };
    let mut done: usize = 0;
    proof {
        assert(parents@.take(0) =~= Seq::<u32>::empty());
        assert(start + parent_values(parents@.take(0), layer@) =~= start);
    }
    while degree - done >= 2
        invariant
            0 <= done <= degree,
            batch >= 2,
            batch % 2 == 0,
            parents@.len() == degree,
            parents_in_layer(parents@, layer@),
            start.len() + 32 * degree <= MAX_MESSAGE_LEN,
            absorbed(hasher) == start + parent_values(parents@.take(done as int), layer@),
        decreases degree - done,
    {
        let rest = degree - done;
        let pairs = rest - rest % 2;
        let count = if batch < pairs {
            batch
        } else {
            pairs
        };
        let blocks = gather(parents, layer, done, count);
        proof {
            lemma_parent_values_len(parents@.take(done as int), layer@);
            lemma_parent_values_concat(
                parents@.take(done as int),
                parents@.subrange(done as int, done + count),
                layer@,
            );
            assert(parents@.take(done as int) + parents@.subrange(done as int, done + count)
                =~= parents@.take(done + count));
            assert(start + (parent_values(parents@.take(done as int), layer@) + concat_blocks(
                blocks@,
            )) =~= (start + parent_values(parents@.take(done as int), layer@)) + concat_blocks(
                blocks@,
            ));
        }
        absorb(&mut hasher, blocks.as_slice());
        done += count;
    }
    if done < degree {
        let last = parents[done];
        proof {
            assert(has_node(layer@, parents@[done as int] as int));
            assert(layer@.len() == layer.len());
            lemma_parent_values_len(parents@.take(done as int), layer@);
            assert(parents@.take(done as int).push(parents@[done as int]) =~= parents@);
            assert(parents@.drop_last() =~= parents@.take(done as int));
            assert(start + (parent_values(parents@.take(done as int), layer@) + node_value(
                layer@,
                last as int,
            )) =~= (start + parent_values(parents@.take(done as int), layer@)) + node_value(
                layer@,
                last as int,
            ));
        }
        finish_with(hasher, node_slice(layer, last as usize))
    } else {
        proof {
            assert(parents@.take(done as int) =~= parents@);
        }
        finish(hasher)
    }
}

} // verus!
