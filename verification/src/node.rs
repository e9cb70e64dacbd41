//! Nodes: the 32-byte cells that a layer is made of.

use vstd::prelude::*;
use vstd::slice::slice_subrange;

verus! {

/// The size of a node in bytes.
pub const NODE_SIZE: usize = 32;

/// The node at `index` of `layer`.
pub open spec fn node_value(layer: Seq<u8>, index: int) -> Seq<u8> {
    layer.subrange(32 * index, 32 * index + 32)
}

/// Whether `layer` holds a whole node at `index`.
pub open spec fn has_node(layer: Seq<u8>, index: int) -> bool {
    0 <= index && 32 * index + 32 <= layer.len()
}

/// The layer of `num_nodes` nodes whose node at `i` is `nodes(i)`.
pub open spec fn layer_of(num_nodes: nat, nodes: spec_fn(int) -> Seq<u8>) -> Seq<u8> {
    Seq::new(32 * num_nodes, |j: int| nodes(j / 32)[j % 32])
}

/// A layer built from nodes of 32 bytes holds those nodes.
pub proof fn lemma_layer_of_node(num_nodes: nat, nodes: spec_fn(int) -> Seq<u8>, index: int)
    requires
        0 <= index < num_nodes,
        nodes(index).len() == 32,
    ensures
        node_value(layer_of(num_nodes, nodes), index) == nodes(index),
{
    let layer = layer_of(num_nodes, nodes);
    assert forall|j: int| 0 <= j < 32 implies node_value(layer, index)[j] == nodes(index)[j] by {
        assert((32 * index + j) / 32 == index && (32 * index + j) % 32 == j) by (nonlinear_arith)
            requires
                0 <= j < 32,
        ;
    }
    assert(node_value(layer, index) =~= nodes(index));
}

/// A layer is determined by its nodes.
pub proof fn lemma_layer_from_nodes(
    layer: Seq<u8>,
    num_nodes: nat,
    nodes: spec_fn(int) -> Seq<u8>,
)
    requires
        layer.len() == 32 * num_nodes,
        forall|i: int| 0 <= i < num_nodes ==> node_value(layer, i) == #[trigger] nodes(i),
    ensures
        layer == layer_of(num_nodes, nodes),
{
    assert forall|j: int| 0 <= j < layer.len() implies layer[j] == nodes(j / 32)[j % 32] by {
        let i = j / 32;
        assert(node_value(layer, i) == nodes(i));
        assert(node_value(layer, i)[j % 32] == layer[32 * i + j % 32]);
    }
    assert(layer =~= layer_of(num_nodes, nodes));
}

/// Borrows the node at `index` of `layer`.
pub fn node_slice(layer: &[u8], index: usize) -> (node: &[u8])
    requires
        has_node(layer@, index as int),
    ensures
        node@ == node_value(layer@, index as int),
        node@.len() == 32,
{
    assert(layer@.len() == layer.len());
    slice_subrange(layer, index * NODE_SIZE, index * NODE_SIZE + NODE_SIZE)
}

/// Overwrites the node at `index` of `layer` with `node`.
pub fn write_node(layer: &mut [u8], index: usize, node: &[u8; 32])
    requires
        has_node(old(layer)@, index as int),
    ensures
        final(layer)@.len() == old(layer)@.len(),
        node_value(final(layer)@, index as int) == node@,
        forall|j: int|
            0 <= j < old(layer)@.len() && !(32 * index <= j < 32 * index + 32) ==> final(layer)@[j]
                == old(layer)@[j],
        forall|other: int|
            has_node(old(layer)@, other) && other != index ==> node_value(final(layer)@, other)
                == #[trigger] node_value(old(layer)@, other),
{
    assert(layer@.len() == layer.len());
    let base = index * NODE_SIZE;
    let mut i: usize = 0;
    while i < NODE_SIZE
        invariant
            0 <= i <= 32,
            base == 32 * index,
            base + 32 <= layer@.len(),
            layer@.len() == old(layer)@.len(),
            forall|j: int| 0 <= j < i ==> layer@[base + j] == node@[j],
            forall|j: int|
                0 <= j < layer@.len() && !(base <= j < base + i) ==> layer@[j] == old(layer)@[j],
        decreases 32 - i,
    {
        layer[base + i] = node[i];
        i += 1;
    }
    assert(node_value(layer@, index as int) =~= node@);
    assert forall|other: int| has_node(old(layer)@, other) && other != index implies node_value(
        layer@,
        other,
    ) == #[trigger] node_value(old(layer)@, other) by {
        assert(node_value(layer@, other) =~= node_value(old(layer)@, other));
    }
}

} // verus!
