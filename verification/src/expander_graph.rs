//! The expander graph: which nodes of the previous layer a node of an
//! expander layer is hashed from. The graph is the same for every layer.

use vstd::prelude::*;
use crate::batch_hasher::hash_pair;
use crate::bytes::{be32, be32_value, be64, get_be32, put_be32, zeros};
use crate::config::Config;
use crate::hash::sha256;
use crate::node::NODE_SIZE;

verus! {

/// How many parents are drawn from one digest: a digest is eight words of
/// four bytes.
pub const PARENTS_PER_DIGEST: usize = 8;

/// The 64 bytes that are hashed to draw the parents of `node`: the node's
/// index in four bytes and `counter` in eight, most significant byte first,
/// and 52 zero bytes.
pub open spec fn expander_seed(node: u32, counter: u64) -> Seq<u8> {
    be32(node) + be64(counter) + zeros(52)
}

/// The parent of `node` in slot `slot`, in a window of `num_leafs` nodes.
///
/// The slots are served eight to a digest: slot `s` reads word `s % 8` of
/// the digest of the seed with counter `s / 8`, and reduces it modulo the
/// number of nodes. In a window without nodes every parent is 0.
pub open spec fn expander_parent(num_leafs: nat, node: u32, slot: nat) -> u32 {
    let digest = sha256(expander_seed(node, (slot / 8) as u64));
    let at = 4 * (slot % 8) as int;
    let word = be32_value(digest.subrange(at, at + 4));
    if num_leafs == 0 {
        0
    } else {
        (word as nat % num_leafs) as u32
    }
}

/// The expander graph which provides the parents for the expander layers.
#[derive(Clone, Copy, Debug)]
pub struct ExpanderGraph {
    /// The degree of the graph.
    pub degree: usize,
    /// The number of nodes in a window.
    pub num_leafs: usize,
}

/// The digest from which the parents of `node` with counter `counter` are
/// drawn.
fn seed_digest(node: u32, counter: u64) -> (digest: [u8; 32])
    ensures
        digest@ == sha256(expander_seed(node, counter)),
{
    let mut first = [0u8; 32];
    let second = [0u8; 32];
    put_be32(&mut first, 0, node);
    put_be32(&mut first, 4, (counter >> 32) as u32);
    put_be32(&mut first, 8, counter as u32);
    assert(first@ + second@ =~= expander_seed(node, counter));
    hash_pair(first.as_slice(), second.as_slice())
}

impl ExpanderGraph {
    /// The expander graph of a window with the parameters `config`.
    pub open spec fn spec_new(config: Config) -> ExpanderGraph {
        ExpanderGraph { degree: config.degree_expander, num_leafs: config.n / NODE_SIZE }
    }

    /// The expander graph of a window with the parameters `config`.
    pub fn new(config: &Config) -> (graph: ExpanderGraph)
        ensures
            graph == Self::spec_new(*config),
    {
        ExpanderGraph { degree: config.degree_expander, num_leafs: config.n / NODE_SIZE }
    }

    /// The parents of `node`, in order.
    pub open spec fn spec_parents(&self, node: u32) -> Seq<u32> {
        Seq::new(
            self.degree as nat,
            |slot: int| expander_parent(self.num_leafs as nat, node, slot as nat),
        )
    }

    /// Calculates the parents for the node at the given `index`: as many as
    /// the degree, each the index of a node of the window.
    pub fn parents(&self, index: u32) -> (parents: Vec<u32>)
        ensures
            parents@ == self.spec_parents(index),
            forall|slot: int|
                0 <= slot < parents@.len() && self.num_leafs > 0 ==> parents@[slot]
                    < self.num_leafs,
    {
        let mut parents: Vec<u32> = Vec::new();
        let mut digest = [0u8; 32];
        let mut slot: usize = 0;
        while slot < self.degree
            invariant
                0 <= slot <= self.degree,
                parents@.len() == slot,
                slot % 8 != 0 ==> digest@ == sha256(expander_seed(index, (slot / 8) as u64)),
                forall|s: int|
                    0 <= s < slot ==> parents@[s] == expander_parent(
                        self.num_leafs as nat,
                        index,
                        s as nat,
                    ),
                forall|s: int| 0 <= s < slot && self.num_leafs > 0 ==> parents@[s] < self.num_leafs,
            decreases self.degree - slot,
        {
            if slot % PARENTS_PER_DIGEST == 0 {
                digest = seed_digest(index, (slot / PARENTS_PER_DIGEST) as u64);
            }
            let word = get_be32(&digest, 4 * (slot % PARENTS_PER_DIGEST));
            let parent: u32 = if self.num_leafs == 0 {
                0
            } else {
                (word as u64 % self.num_leafs as u64) as u32
            };
            parents.push(parent);
            slot += 1;
        }
        assert(parents@ =~= self.spec_parents(index));
        parents
    }
}

} // verus!
