//! The label layers of one window, and the encoding built on them.
//!
//! Layer 1 is the mask layer. Layers 2 to `num_expander_layers` are
//! expander layers, the layers after them butterfly layers. The last
//! butterfly layer is not kept as it is: its nodes are the keys that are
//! folded into the data, or taken out of it again.

use vstd::prelude::*;
use vstd::slice::slice_to_vec;
use crate::batch_hasher::{
    batch_hash, hash_pair, lemma_truncated_is_element, parent_values, parents_in_layer,
    preloaded_hasher, truncate_hash, truncated,
};
use crate::butterfly_graph::ButterflyGraph;
use crate::bytes::{be32, put_be32, zeros};
use crate::config::{Config, MAX_DEGREE};
use crate::domain::{
    combine, inverse_combine, is_element, lemma_inverse_combine_of_combine, spec_combine,
    spec_inverse_combine, DomainElement,
};
use crate::error::Error;
use crate::expander_graph::ExpanderGraph;
use crate::hash::sha256;
use crate::node::{
    layer_of, lemma_layer_from_nodes, lemma_layer_of_node, node_slice, node_value, write_node,
};
use crate::pipeline::{LabelPipeline, PipelineView};

verus! {

/// The index of the mask layer.
pub const MASK_LAYER_INDEX: u32 = 1;

/// The 32 bytes that open the hash of every node: the layer, the node's
/// index and the window's index, four bytes each with the most significant
/// first, and twenty zero bytes.
pub open spec fn prefix_bytes(layer: u32, node_index: u32, window_index: u32) -> Seq<u8> {
    be32(layer) + be32(node_index) + be32(window_index) + zeros(20)
}

/// The label of a node: the truncated digest of its prefix, the replica
/// identifier and the values of its parents in the previous layer.
pub open spec fn node_label(
    layer_index: u32,
    node_index: u32,
    window_index: u32,
    replica_id: Seq<u8>,
    parents: Seq<u32>,
    layer_in: Seq<u8>,
) -> Seq<u8> {
    truncated(
        sha256(
            prefix_bytes(layer_index, node_index, window_index) + replica_id + parent_values(
                parents,
                layer_in,
            ),
        ),
    )
}

/// The node at `node_index` of the mask layer: the truncated digest of its
/// prefix and the replica identifier.
pub open spec fn mask_node(window_index: u32, replica_id: Seq<u8>, node_index: u32) -> Seq<u8> {
    truncated(sha256(prefix_bytes(MASK_LAYER_INDEX, node_index, window_index) + replica_id))
}

/// The mask layer of a window.
pub open spec fn spec_mask_layer(config: Config, window_index: u32, replica_id: Seq<u8>) -> Seq<
    u8,
> {
    layer_of(config.spec_num_leafs(), |i: int| mask_node(window_index, replica_id, i as u32))
}

/// The node at `node_index` of the expander layer `layer_index` over the
/// layer `layer_in`.
pub open spec fn expander_node(
    config: Config,
    window_index: u32,
    replica_id: Seq<u8>,
    layer_index: u32,
    layer_in: Seq<u8>,
    node_index: u32,
) -> Seq<u8> {
    node_label(
        layer_index,
        node_index,
        window_index,
        replica_id,
        ExpanderGraph::spec_new(config).spec_parents(node_index),
        layer_in,
    )
}

/// The expander layer `layer_index` over the layer `layer_in`.
pub open spec fn spec_expander_layer(
    config: Config,
    window_index: u32,
    replica_id: Seq<u8>,
    layer_index: u32,
    layer_in: Seq<u8>,
) -> Seq<u8> {
    layer_of(
        config.spec_num_leafs(),
        |i: int| expander_node(config, window_index, replica_id, layer_index, layer_in, i as u32),
    )
}

/// The node at `node_index` of the butterfly layer `layer_index` over the
/// layer `layer_in`.
pub open spec fn butterfly_node(
    config: Config,
    window_index: u32,
    replica_id: Seq<u8>,
    layer_index: u32,
    layer_in: Seq<u8>,
    node_index: u32,
) -> Seq<u8> {
    node_label(
        layer_index,
        node_index,
        window_index,
        replica_id,
        ButterflyGraph::spec_new(config).spec_parents(node_index, layer_index),
        layer_in,
    )
}

/// The butterfly layer `layer_index` over the layer `layer_in`.
pub open spec fn spec_butterfly_layer(
    config: Config,
    window_index: u32,
    replica_id: Seq<u8>,
    layer_index: u32,
    layer_in: Seq<u8>,
) -> Seq<u8> {
    layer_of(
        config.spec_num_leafs(),
        |i: int| butterfly_node(config, window_index, replica_id, layer_index, layer_in, i as u32),
    )
}

/// Whether the mask layer is produced into a buffer of `out_len` bytes,
/// and if not, why not.
pub open spec fn mask_layer_outcome(config: Config, out_len: nat) -> Result<(), Error> {
    if !config.valid() {
        Err(Error::InvalidConfig)
    } else if out_len != config.n {
        Err(Error::BufferLength)
    } else {
        Ok(())
    }
}

/// Whether the expander layer `layer_index` is produced from a layer of
/// `in_len` bytes into a buffer of `out_len` bytes, and if not, why not.
pub open spec fn expander_layer_outcome(
    config: Config,
    layer_index: u32,
    in_len: nat,
    out_len: nat,
) -> Result<(), Error> {
    if !config.valid() {
        Err(Error::InvalidConfig)
    } else if in_len != out_len || out_len != config.n {
        Err(Error::BufferLength)
    } else if !(1 < layer_index <= config.num_expander_layers) {
        Err(Error::LayerIndex)
    } else {
        Ok(())
    }
}

/// Whether the butterfly layer `layer_index` is produced from a layer of
/// `in_len` bytes into a buffer of `out_len` bytes, and if not, why not.
pub open spec fn butterfly_layer_outcome(
    config: Config,
    layer_index: u32,
    in_len: nat,
    out_len: nat,
) -> Result<(), Error> {
    if !config.valid() {
        Err(Error::InvalidConfig)
    } else if in_len != out_len || out_len != config.n {
        Err(Error::BufferLength)
    } else if !(config.num_expander_layers < layer_index < config.spec_num_layers()) {
        Err(Error::LayerIndex)
    } else {
        Ok(())
    }
}

/// Constructs the first 32 byte prefix for hashing any node.
pub fn hash_prefix(layer: u32, node_index: u32, window_index: u32) -> (prefix: [u8; 32])
    ensures
        prefix@ == prefix_bytes(layer, node_index, window_index),
{
    let mut prefix = [0u8; 32];
    put_be32(&mut prefix, 0, layer);
    put_be32(&mut prefix, 4, node_index);
    put_be32(&mut prefix, 8, window_index);
    assert(prefix@ =~= prefix_bytes(layer, node_index, window_index));
    prefix
}

/// Computes the label of a node from its parents in the previous layer,
/// absorbing the parents `k` at a time.
fn label_node(
    k: usize,
    layer_index: u32,
    node_index: u32,
    window_index: u32,
    replica_id: &[u8; 32],
    parents: &[u32],
    layer_in: &[u8],
) -> (label: [u8; 32])
    requires
        parents@.len() <= MAX_DEGREE,
        parents_in_layer(parents@, layer_in@),
    ensures
        label@ == node_label(
            layer_index,
            node_index,
            window_index,
            replica_id@,
            parents@,
            layer_in@,
        ),
        is_element(label@),
{
    let prefix = hash_prefix(layer_index, node_index, window_index);
    let hasher = preloaded_hasher(&prefix, replica_id);
    let mut label = batch_hash(k, parents.len(), hasher, parents, layer_in);
    truncate_hash(&mut label);
    label
}

/// Generate the mask layer, for one window.
pub fn mask_layer(
    config: &Config,
    window_index: u32,
    replica_id: &[u8; 32],
    layer_out: &mut [u8],
) -> (res: Result<(), Error>)
    ensures
        res == mask_layer_outcome(*config, old(layer_out)@.len()),
        res is Ok ==> final(layer_out)@ == spec_mask_layer(*config, window_index, replica_id@),
        res is Err ==> final(layer_out)@ == old(layer_out)@,
{
    if !config.is_valid() {
        return Err(Error::InvalidConfig);
    }
    if layer_out.len() != config.n {
        return Err(Error::BufferLength);
    }
    let num_leafs = config.num_leafs();
    let mut node_index: usize = 0;
    while node_index < num_leafs
        invariant
            0 <= node_index <= num_leafs,
            config.valid(),
            num_leafs == config.spec_num_leafs(),
            layer_out@.len() == config.n,
            forall|i: int|
                0 <= i < node_index ==> node_value(layer_out@, i) == mask_node(
                    window_index,
                    replica_id@,
                    i as u32,
                ),
        decreases num_leafs - node_index,
    {
        let prefix = hash_prefix(MASK_LAYER_INDEX, node_index as u32, window_index);
        let mut node = hash_pair(prefix.as_slice(), replica_id.as_slice());
        truncate_hash(&mut node);
        let ghost before = layer_out@;
        write_node(layer_out, node_index, &node);
        assert forall|i: int| 0 <= i <= node_index implies node_value(layer_out@, i) == mask_node(
            window_index,
            replica_id@,
            i as u32,
        ) by {
            if i < node_index {
                assert(node_value(layer_out@, i) == node_value(before, i));
            }
        }
        node_index += 1;
    }
    proof {
        lemma_layer_from_nodes(
            layer_out@,
            config.spec_num_leafs(),
            |i: int| mask_node(window_index, replica_id@, i as u32),
        );
    }
    Ok(())
}

/// Generate a single expander layer, for one window.
pub fn expander_layer(
    config: &Config,
    window_index: u32,
    replica_id: &[u8; 32],
    layer_index: u32,
    layer_in: &[u8],
    layer_out: &mut [u8],
) -> (res: Result<(), Error>)
    ensures
        res == expander_layer_outcome(
            *config,
            layer_index,
            layer_in@.len(),
            old(layer_out)@.len(),
        ),
        res is Ok ==> final(layer_out)@ == spec_expander_layer(
            *config,
            window_index,
            replica_id@,
            layer_index,
            layer_in@,
        ),
        res is Err ==> final(layer_out)@ == old(layer_out)@,
{
    if !config.is_valid() {
        return Err(Error::InvalidConfig);
    }
    if layer_in.len() != layer_out.len() || layer_out.len() != config.n {
        return Err(Error::BufferLength);
    }
    if !(layer_index > 1 && layer_index as usize <= config.num_expander_layers) {
        return Err(Error::LayerIndex);
    }
    let graph = ExpanderGraph::new(config);
    let num_leafs = config.num_leafs();
    let mut node_index: usize = 0;
    while node_index < num_leafs
        invariant
            0 <= node_index <= num_leafs,
            config.valid(),
            graph == ExpanderGraph::spec_new(*config),
            num_leafs == config.spec_num_leafs(),
            layer_in@.len() == config.n,
            layer_out@.len() == config.n,
            forall|i: int|
                0 <= i < node_index ==> node_value(layer_out@, i) == expander_node(
                    *config,
                    window_index,
                    replica_id@,
                    layer_index,
                    layer_in@,
                    i as u32,
                ),
        decreases num_leafs - node_index,
    {
        let parents = graph.parents(node_index as u32);
        let node = label_node(
            config.k as usize,
            layer_index,
            node_index as u32,
            window_index,
            replica_id,
            parents.as_slice(),
            layer_in,
        );
        let ghost before = layer_out@;
        write_node(layer_out, node_index, &node);
        assert forall|i: int| 0 <= i <= node_index implies node_value(layer_out@, i)
            == expander_node(
            *config,
            window_index,
            replica_id@,
            layer_index,
            layer_in@,
            i as u32,
        ) by {
            if i < node_index {
                assert(node_value(layer_out@, i) == node_value(before, i));
            }
        }
        node_index += 1;
    }
    proof {
        lemma_layer_from_nodes(
            layer_out@,
            config.spec_num_leafs(),
            |i: int|
                expander_node(
                    *config,
                    window_index,
                    replica_id@,
                    layer_index,
                    layer_in@,
                    i as u32,
                ),
        );
    }
    Ok(())
}

/// Generate a single butterfly layer.
pub fn butterfly_layer(
    config: &Config,
    window_index: u32,
    replica_id: &[u8; 32],
    layer_index: u32,
    layer_in: &[u8],
    layer_out: &mut [u8],
) -> (res: Result<(), Error>)
    ensures
        res == butterfly_layer_outcome(
            *config,
            layer_index,
            layer_in@.len(),
            old(layer_out)@.len(),
        ),
        res is Ok ==> final(layer_out)@ == spec_butterfly_layer(
            *config,
            window_index,
            replica_id@,
            layer_index,
            layer_in@,
        ),
        res is Err ==> final(layer_out)@ == old(layer_out)@,
{
    if !config.is_valid() {
        return Err(Error::InvalidConfig);
    }
    if layer_in.len() != layer_out.len() || layer_out.len() != config.n {
        return Err(Error::BufferLength);
    }
    if !(layer_index as usize > config.num_expander_layers && (layer_index as usize)
        < config.num_expander_layers + config.num_butterfly_layers) {
        return Err(Error::LayerIndex);
    }
    let graph = ButterflyGraph::new(config);
    let num_leafs = config.num_leafs();
    let mut node_index: usize = 0;
    while node_index < num_leafs
        invariant
            0 <= node_index <= num_leafs,
            config.valid(),
            graph == ButterflyGraph::spec_new(*config),
            num_leafs == config.spec_num_leafs(),
            layer_in@.len() == config.n,
            layer_out@.len() == config.n,
            forall|i: int|
                0 <= i < node_index ==> node_value(layer_out@, i) == butterfly_node(
                    *config,
                    window_index,
                    replica_id@,
                    layer_index,
                    layer_in@,
                    i as u32,
                ),
        decreases num_leafs - node_index,
    {
        let parents = graph.parents(node_index as u32, layer_index);
        let node = label_node(
            2,
            layer_index,
            node_index as u32,
            window_index,
            replica_id,
            parents.as_slice(),
            layer_in,
        );
        let ghost before = layer_out@;
        write_node(layer_out, node_index, &node);
        assert forall|i: int| 0 <= i <= node_index implies node_value(layer_out@, i)
            == butterfly_node(
            *config,
            window_index,
            replica_id@,
            layer_index,
            layer_in@,
            i as u32,
        ) by {
            if i < node_index {
                assert(node_value(layer_out@, i) == node_value(before, i));
            }
        }
        node_index += 1;
    }
    proof {
        lemma_layer_from_nodes(
            layer_out@,
            config.spec_num_leafs(),
            |i: int|
                butterfly_node(
                    *config,
                    window_index,
                    replica_id@,
                    layer_index,
                    layer_in@,
                    i as u32,
                ),
        );
    }
    Ok(())
}

/// The two directions of the last layer: folding the keys into the data, or
/// taking them out of it.
#[derive(Clone, Copy, Debug, PartialEq, Eq, Structural)]
pub enum Direction {
    /// The keys are folded into the data.
    Encode,
    /// The keys are taken out of the encoded data.
    Decode,
}

/// What a node of the last layer becomes of `key` and `value`.
pub open spec fn fold_node(direction: Direction, key: Seq<u8>, value: Seq<u8>) -> Seq<u8> {
    match direction {
        Direction::Encode => spec_combine(key, value),
        Direction::Decode => spec_inverse_combine(key, value),
    }
}

/// Whether each of the first `num_nodes` nodes of `data` is a domain
/// element.
pub open spec fn all_elements(data: Seq<u8>, num_nodes: nat) -> bool {
    forall|i: int| 0 <= i < num_nodes ==> is_element(#[trigger] node_value(data, i))
}

/// The last layer over the layer `layer_in`: each node is the key at its
/// place, which is the node of the butterfly layer `layer_index`, folded
/// into the node of `data`, or taken out of it.
pub open spec fn spec_butterfly_fold_layer(
    direction: Direction,
    config: Config,
    window_index: u32,
    replica_id: Seq<u8>,
    layer_index: u32,
    layer_in: Seq<u8>,
    data: Seq<u8>,
) -> Seq<u8> {
    layer_of(
        config.spec_num_leafs(),
        |i: int|
            fold_node(
                direction,
                butterfly_node(config, window_index, replica_id, layer_index, layer_in, i as u32),
                node_value(data, i),
            ),
    )
}

/// The encoding layer over the layer `layer_in`.
pub open spec fn spec_butterfly_encode_layer(
    config: Config,
    window_index: u32,
    replica_id: Seq<u8>,
    layer_index: u32,
    layer_in: Seq<u8>,
    data: Seq<u8>,
) -> Seq<u8> {
    spec_butterfly_fold_layer(
        Direction::Encode,
        config,
        window_index,
        replica_id,
        layer_index,
        layer_in,
        data,
    )
}

/// The decoding layer over the layer `layer_in`.
pub open spec fn spec_butterfly_decode_layer(
    config: Config,
    window_index: u32,
    replica_id: Seq<u8>,
    layer_index: u32,
    layer_in: Seq<u8>,
    data: Seq<u8>,
) -> Seq<u8> {
    spec_butterfly_fold_layer(
        Direction::Decode,
        config,
        window_index,
        replica_id,
        layer_index,
        layer_in,
        data,
    )
}

/// Whether the last layer is produced from a layer of `in_len` bytes and
/// `data` into a buffer of `out_len` bytes, and if not, why not.
pub open spec fn fold_layer_outcome(
    config: Config,
    layer_index: u32,
    in_len: nat,
    data: Seq<u8>,
    out_len: nat,
) -> Result<(), Error> {
    if !config.valid() {
        Err(Error::InvalidConfig)
    } else if in_len != out_len || out_len != config.n || data.len() != config.n {
        Err(Error::BufferLength)
    } else if layer_index != config.spec_num_layers() {
        Err(Error::LayerIndex)
    } else if !all_elements(data, config.spec_num_leafs()) {
        Err(Error::DomainConversion)
    } else {
        Ok(())
    }
}

/// Whether every node of `data` is a domain element.
fn check_elements(data: &[u8], num_nodes: usize) -> (ok: bool)
    requires
        data@.len() == 32 * num_nodes,
    ensures
        ok == all_elements(data@, num_nodes as nat),
{
    let mut node_index: usize = 0;
    while node_index < num_nodes
        invariant
            0 <= node_index <= num_nodes,
            data@.len() == 32 * num_nodes,
            all_elements(data@, node_index as nat),
        decreases num_nodes - node_index,
    {
        if DomainElement::try_from_bytes(node_slice(data, node_index)).is_err() {
            assert(!is_element(node_value(data@, node_index as int)));
            return false;
        }
        node_index += 1;
    }
    true
}

/// Generate a butterfly layer which additionally encodes or decodes using the data.
fn butterfly_encode_decode_layer(
    config: &Config,
    window_index: u32,
    replica_id: &[u8; 32],
    layer_index: u32,
    layer_in: &[u8],
    data: &[u8],
    layer_out: &mut [u8],
    direction: Direction,
) -> (res: Result<(), Error>)
    ensures
        res == fold_layer_outcome(
            *config,
            layer_index,
            layer_in@.len(),
            data@,
            old(layer_out)@.len(),
        ),
        res is Ok ==> final(layer_out)@ == spec_butterfly_fold_layer(
            direction,
            *config,
            window_index,
            replica_id@,
            layer_index,
            layer_in@,
            data@,
        ),
        res is Err ==> final(layer_out)@ == old(layer_out)@,
{
    if !config.is_valid() {
        return Err(Error::InvalidConfig);
    }
    if layer_in.len() != layer_out.len() || layer_out.len() != config.n || data.len() != config.n {
        return Err(Error::BufferLength);
    }
    if layer_index as usize != config.num_expander_layers + config.num_butterfly_layers {
        return Err(Error::LayerIndex);
    }
    let num_leafs = config.num_leafs();
    if !check_elements(data, num_leafs) {
        return Err(Error::DomainConversion);
    }
    let graph = ButterflyGraph::new(config);
    let mut node_index: usize = 0;
    while node_index < num_leafs
        invariant
            0 <= node_index <= num_leafs,
            config.valid(),
            graph == ButterflyGraph::spec_new(*config),
            num_leafs == config.spec_num_leafs(),
            layer_in@.len() == config.n,
            data@.len() == config.n,
            layer_out@.len() == config.n,
            all_elements(data@, num_leafs as nat),
            forall|i: int|
                0 <= i < node_index ==> node_value(layer_out@, i) == fold_node(
                    direction,
                    butterfly_node(
                        *config,
                        window_index,
                        replica_id@,
                        layer_index,
                        layer_in@,
                        i as u32,
                    ),
                    node_value(data@, i),
                ),
        decreases num_leafs - node_index,
    {
        let parents = graph.parents(node_index as u32, layer_index);
        let key = label_node(
            2,
            layer_index,
            node_index as u32,
            window_index,
            replica_id,
            parents.as_slice(),
            layer_in,
        );
        assert(is_element(node_value(data@, node_index as int)));
        let key = match DomainElement::try_from_bytes(key.as_slice()) {
            Ok(key) => key,
            Err(e) => { return Err(e); },
        };
        let value = match DomainElement::try_from_bytes(node_slice(data, node_index)) {
            Ok(value) => value,
            Err(e) => { return Err(e); },
        };
        let node = match direction {
            Direction::Encode => combine(&key, &value),
            Direction::Decode => inverse_combine(&key, &value),
        };
        let node = node.into_bytes();
        let ghost before = layer_out@;
        write_node(layer_out, node_index, &node);
        assert forall|i: int| 0 <= i <= node_index implies node_value(layer_out@, i) == fold_node(
            direction,
            butterfly_node(*config, window_index, replica_id@, layer_index, layer_in@, i as u32),
            node_value(data@, i),
        ) by {
            if i < node_index {
                assert(node_value(layer_out@, i) == node_value(before, i));
            }
        }
        node_index += 1;
    }
    proof {
        lemma_layer_from_nodes(
            layer_out@,
            config.spec_num_leafs(),
            |i: int|
                fold_node(
                    direction,
                    butterfly_node(
                        *config,
                        window_index,
                        replica_id@,
                        layer_index,
                        layer_in@,
                        i as u32,
                    ),
                    node_value(data@, i),
                ),
        );
    }
    Ok(())
}

/// Generate a butterfly layer which additionally encodes using the data.
pub fn butterfly_encode_layer(
    config: &Config,
    window_index: u32,
    replica_id: &[u8; 32],
    layer_index: u32,
    layer_in: &[u8],
    data: &[u8],
    layer_out: &mut [u8],
) -> (res: Result<(), Error>)
    ensures
        res == fold_layer_outcome(
            *config,
            layer_index,
            layer_in@.len(),
            data@,
            old(layer_out)@.len(),
        ),
        res is Ok ==> final(layer_out)@ == spec_butterfly_encode_layer(
            *config,
            window_index,
            replica_id@,
            layer_index,
            layer_in@,
            data@,
        ),
        res is Err ==> final(layer_out)@ == old(layer_out)@,
{
    butterfly_encode_decode_layer(
        config,
        window_index,
        replica_id,
        layer_index,
        layer_in,
        data,
        layer_out,
        Direction::Encode,
    )
}

/// Generate a butterfly layer which additionally decodes using the data.
pub fn butterfly_decode_layer(
    config: &Config,
    window_index: u32,
    replica_id: &[u8; 32],
    layer_index: u32,
    layer_in: &[u8],
    data: &[u8],
    layer_out: &mut [u8],
) -> (res: Result<(), Error>)
    ensures
        res == fold_layer_outcome(
            *config,
            layer_index,
            layer_in@.len(),
            data@,
            old(layer_out)@.len(),
        ),
        res is Ok ==> final(layer_out)@ == spec_butterfly_decode_layer(
            *config,
            window_index,
            replica_id@,
            layer_index,
            layer_in@,
            data@,
        ),
        res is Err ==> final(layer_out)@ == old(layer_out)@,
{
    butterfly_encode_decode_layer(
        config,
        window_index,
        replica_id,
        layer_index,
        layer_in,
        data,
        layer_out,
        Direction::Decode,
    )
}

/// The label layer `layer_index` of a window: the mask layer, an expander
/// layer over the layer before it, or a butterfly layer over the layer
/// before it. The last layer of a window is no label layer.
pub open spec fn spec_label_layer(
    config: Config,
    window_index: u32,
    replica_id: Seq<u8>,
    layer_index: nat,
) -> Seq<u8>
    decreases layer_index,
{
    if layer_index <= 1 {
        spec_mask_layer(config, window_index, replica_id)
    } else if layer_index <= config.num_expander_layers {
        spec_expander_layer(
            config,
            window_index,
            replica_id,
            layer_index as u32,
            spec_label_layer(config, window_index, replica_id, (layer_index - 1) as nat),
        )
    } else {
        spec_butterfly_layer(
            config,
            window_index,
            replica_id,
            layer_index as u32,
            spec_label_layer(config, window_index, replica_id, (layer_index - 1) as nat),
        )
    }
}

/// The encoding of `data`: the keys of the last layer folded into it.
pub open spec fn spec_encode(
    config: Config,
    window_index: u32,
    replica_id: Seq<u8>,
    data: Seq<u8>,
) -> Seq<u8> {
    spec_butterfly_encode_layer(
        config,
        window_index,
        replica_id,
        config.spec_num_layers() as u32,
        spec_label_layer(
            config,
            window_index,
            replica_id,
            (config.spec_num_layers() - 1) as nat,
        ),
        data,
    )
}

/// The decoding of `encoded_data`: the keys of the last layer taken out of
/// it.
pub open spec fn spec_decode(
    config: Config,
    window_index: u32,
    replica_id: Seq<u8>,
    encoded_data: Seq<u8>,
) -> Seq<u8> {
    spec_butterfly_decode_layer(
        config,
        window_index,
        replica_id,
        config.spec_num_layers() as u32,
        spec_label_layer(
            config,
            window_index,
            replica_id,
            (config.spec_num_layers() - 1) as nat,
        ),
        encoded_data,
    )
}

/// The layer `layer_index` of the encoding of `data`: a label layer, or,
/// last, the encoded data.
pub open spec fn spec_encoding_layer(
    config: Config,
    window_index: u32,
    replica_id: Seq<u8>,
    data: Seq<u8>,
    layer_index: nat,
) -> Seq<u8> {
    if layer_index < config.spec_num_layers() {
        spec_label_layer(config, window_index, replica_id, layer_index)
    } else {
        spec_encode(config, window_index, replica_id, data)
    }
}

/// Whether a window of `data` is encoded or decoded, and if not, why not.
pub open spec fn window_outcome(config: Config, data: Seq<u8>) -> Result<(), Error> {
    if !config.valid() {
        Err(Error::InvalidConfig)
    } else if data.len() != config.n {
        Err(Error::BufferLength)
    } else if !all_elements(data, config.spec_num_leafs()) {
        Err(Error::DomainConversion)
    } else {
        Ok(())
    }
}

/// Encodes the provided data and returns the replica and the layers of the
/// window in order, the replica last: each of them is what the Merkle tree
/// of its layer is built from.
///
/// The data is encoded if the parameters are valid, the data has the
/// window's size and each of its nodes is a domain element.
pub fn encode_with_trees(
    config: &Config,
    window_index: u32,
    replica_id: &[u8; 32],
    data: &[u8],
) -> (res: Result<(Vec<u8>, Vec<Vec<u8>>), Error>)
    ensures
        match res {
            Ok((encoded_data, layers)) => {
                &&& window_outcome(*config, data@) is Ok
                &&& encoded_data@ == spec_encode(*config, window_index, replica_id@, data@)
                &&& layers@.len() == config.num_expander_layers + config.num_butterfly_layers
                &&& forall|i: int|
                    0 <= i < layers@.len() ==> {
                        &&& (#[trigger] layers@[i])@ == spec_encoding_layer(
                            *config,
                            window_index,
                            replica_id@,
                            data@,
                            (i + 1) as nat,
                        )
                        &&& layers@[i]@.len() == config.n
                    }
            },
            Err(e) => window_outcome(*config, data@) == Err::<(), Error>(e),
        },
{
    let mut pipeline = match LabelPipeline::new(config, window_index, replica_id) {
        Ok(pipeline) => pipeline,
        Err(e) => { return Err(e); },
    };
    if data.len() != config.n {
        return Err(Error::BufferLength);
    }
    if !check_elements(data, config.num_leafs()) {
        return Err(Error::DomainConversion);
    }
    let mut layers: Vec<Vec<u8>> = Vec::new();
    while !pipeline.is_complete()
        invariant
            config.valid(),
            pipeline@ == (PipelineView {
                config: *config,
                window_index,
                replica_id: replica_id@,
                layers_built: layers@.len(),
            }),
            layers@.len() < config.spec_num_layers(),
            forall|i: int|
                0 <= i < layers@.len() ==> (#[trigger] layers@[i])@ == spec_label_layer(
                    *config,
                    window_index,
                    replica_id@,
                    (i + 1) as nat,
                ),
        decreases config.spec_num_layers() - layers@.len(),
    {
        pipeline = match pipeline.advance() {
            Ok(pipeline) => pipeline,
            Err(e) => { return Err(e); },
        };
        layers.push(slice_to_vec(pipeline.last_layer()));
    }
    let encoded_data = match pipeline.encode(data) {
        Ok(encoded_data) => encoded_data,
        Err(e) => { return Err(e); },
    };
    layers.push(slice_to_vec(encoded_data.as_slice()));
    Ok((encoded_data, layers))
}

/// Decodes the provided `encoded_data`, returning the decoded data.
///
/// The data is decoded if the parameters are valid, the encoded data has
/// the window's size and each of its nodes is a domain element.
pub fn decode(config: &Config, window_index: u32, replica_id: &[u8; 32], encoded_data: &[u8]) -> (res:
    Result<Vec<u8>, Error>)
    ensures
        match res {
            Ok(data) => {
                &&& window_outcome(*config, encoded_data@) is Ok
                &&& data@ == spec_decode(*config, window_index, replica_id@, encoded_data@)
            },
            Err(e) => window_outcome(*config, encoded_data@) == Err::<(), Error>(e),
        },
{
    let mut pipeline = match LabelPipeline::new(config, window_index, replica_id) {
        Ok(pipeline) => pipeline,
        Err(e) => { return Err(e); },
    };
    if encoded_data.len() != config.n {
        return Err(Error::BufferLength);
    }
    if !check_elements(encoded_data, config.num_leafs()) {
        return Err(Error::DomainConversion);
    }
    while !pipeline.is_complete()
        invariant
            config.valid(),
            pipeline@.config == *config,
            pipeline@.window_index == window_index,
            pipeline@.replica_id == replica_id@,
            pipeline@.layers_built < config.spec_num_layers(),
        decreases config.spec_num_layers() - pipeline@.layers_built,
    {
        pipeline = match pipeline.advance() {
            Ok(pipeline) => pipeline,
            Err(e) => { return Err(e); },
        };
    }
    pipeline.decode(encoded_data)
}

/// The decoding layer undoes the encoding layer over the same layer: for
/// data of the window's size whose nodes are domain elements, the encoded
/// nodes are domain elements again, and decoding them gives the data back.
pub proof fn lemma_decode_layer_inverts_encode_layer(
    config: Config,
    window_index: u32,
    replica_id: Seq<u8>,
    layer_index: u32,
    layer_in: Seq<u8>,
    data: Seq<u8>,
)
    requires
        config.n % 32 == 0,
        data.len() == config.n,
        all_elements(data, config.spec_num_leafs()),
    ensures
        spec_butterfly_encode_layer(
            config,
            window_index,
            replica_id,
            layer_index,
            layer_in,
            data,
        ).len() == config.n,
        all_elements(
            spec_butterfly_encode_layer(
                config,
                window_index,
                replica_id,
                layer_index,
                layer_in,
                data,
            ),
            config.spec_num_leafs(),
        ),
        spec_butterfly_decode_layer(
            config,
            window_index,
            replica_id,
            layer_index,
            layer_in,
            spec_butterfly_encode_layer(
                config,
                window_index,
                replica_id,
                layer_index,
                layer_in,
                data,
            ),
        ) == data,
{
    let num_leafs = config.spec_num_leafs();
    let key = |i: int|
        butterfly_node(config, window_index, replica_id, layer_index, layer_in, i as u32);
    let encoded_node = |i: int| fold_node(Direction::Encode, key(i), node_value(data, i));
    let encoded = layer_of(num_leafs, encoded_node);
    let decoded_node = |i: int| fold_node(Direction::Decode, key(i), node_value(encoded, i));
    assert(encoded =~= spec_butterfly_encode_layer(
        config,
        window_index,
        replica_id,
        layer_index,
        layer_in,
        data,
    ));
    assert forall|i: int| 0 <= i < num_leafs implies is_element(
        #[trigger] node_value(encoded, i),
    ) && node_value(data, i) == decoded_node(i) by {
        lemma_truncated_is_element(
            sha256(
                prefix_bytes(layer_index, i as u32, window_index) + replica_id + parent_values(
                    ButterflyGraph::spec_new(config).spec_parents(i as u32, layer_index),
                    layer_in,
                ),
            ),
        );
        assert(is_element(node_value(data, i)));
        lemma_inverse_combine_of_combine(key(i), node_value(data, i));
        lemma_layer_of_node(num_leafs, encoded_node, i);
    }
    lemma_layer_from_nodes(data, num_leafs, decoded_node);
    assert(layer_of(num_leafs, decoded_node) =~= spec_butterfly_decode_layer(
        config,
        window_index,
        replica_id,
        layer_index,
        layer_in,
        encoded,
    ));
}

/// Decoding inverts encoding: for valid parameters and data of the
/// window's size whose nodes are domain elements, the encoded data can be
/// decoded, and decoding it gives the data back.
pub proof fn lemma_decode_inverts_encode(
    config: Config,
    window_index: u32,
    replica_id: Seq<u8>,
    data: Seq<u8>,
)
    requires
        config.valid(),
        data.len() == config.n,
        all_elements(data, config.spec_num_leafs()),
    ensures
        window_outcome(config, spec_encode(config, window_index, replica_id, data)) is Ok,
        spec_decode(
            config,
            window_index,
            replica_id,
            spec_encode(config, window_index, replica_id, data),
        ) == data,
{
    lemma_decode_layer_inverts_encode_layer(
        config,
        window_index,
        replica_id,
        config.spec_num_layers() as u32,
        spec_label_layer(
            config,
            window_index,
            replica_id,
            (config.spec_num_layers() - 1) as nat,
        ),
        data,
    );
}

/// Every label layer has the window's size, and every node of it is a
/// domain element.
pub proof fn lemma_label_layer_holds_elements(
    config: Config,
    window_index: u32,
    replica_id: Seq<u8>,
    layer_index: nat,
)
    requires
        config.n % 32 == 0,
    ensures
        spec_label_layer(config, window_index, replica_id, layer_index).len() == config.n,
        all_elements(
            spec_label_layer(config, window_index, replica_id, layer_index),
            config.spec_num_leafs(),
        ),
{
    let num_leafs = config.spec_num_leafs();
    let layer = spec_label_layer(config, window_index, replica_id, layer_index);
    let layer_in = spec_label_layer(config, window_index, replica_id, (layer_index - 1) as nat);
    assert forall|i: int| 0 <= i < num_leafs implies is_element(#[trigger] node_value(layer, i)) by {
        if layer_index <= 1 {
            lemma_truncated_is_element(
                sha256(prefix_bytes(MASK_LAYER_INDEX, i as u32, window_index) + replica_id),
            );
            lemma_layer_of_node(
                num_leafs,
                |i: int| mask_node(window_index, replica_id, i as u32),
                i,
            );
        } else if layer_index <= config.num_expander_layers {
            lemma_truncated_is_element(
                sha256(
                    prefix_bytes(layer_index as u32, i as u32, window_index) + replica_id
                        + parent_values(
                        ExpanderGraph::spec_new(config).spec_parents(i as u32),
                        layer_in,
                    ),
                ),
            );
            lemma_layer_of_node(
                num_leafs,
                |i: int|
                    expander_node(
                        config,
                        window_index,
                        replica_id,
                        layer_index as u32,
                        layer_in,
                        i as u32,
                    ),
                i,
            );
        } else {
            lemma_truncated_is_element(
                sha256(
                    prefix_bytes(layer_index as u32, i as u32, window_index) + replica_id
                        + parent_values(
                        ButterflyGraph::spec_new(config).spec_parents(
                            i as u32,
                            layer_index as u32,
                        ),
                        layer_in,
                    ),
                ),
            );
            lemma_layer_of_node(
                num_leafs,
                |i: int|
                    butterfly_node(
                        config,
                        window_index,
                        replica_id,
                        layer_index as u32,
                        layer_in,
                        i as u32,
                    ),
                i,
            );
        }
    }
}

/// The batching factor changes no layer and no encoding: it only says how
/// many parents are hashed at a time.
pub proof fn lemma_batching_factor_is_immaterial(
    config: Config,
    k: u32,
    window_index: u32,
    replica_id: Seq<u8>,
    data: Seq<u8>,
    layer_index: nat,
)
    ensures
        spec_label_layer(Config { k, ..config }, window_index, replica_id, layer_index)
            == spec_label_layer(config, window_index, replica_id, layer_index),
        spec_encode(Config { k, ..config }, window_index, replica_id, data) == spec_encode(
            config,
            window_index,
            replica_id,
            data,
        ),
        spec_decode(Config { k, ..config }, window_index, replica_id, data) == spec_decode(
            config,
            window_index,
            replica_id,
            data,
        ),
{
    let other = Config { k, ..config };
    lemma_label_layer_ignores_k(config, k, window_index, replica_id, layer_index);
    lemma_label_layer_ignores_k(
        config,
        k,
        window_index,
        replica_id,
        (config.spec_num_layers() - 1) as nat,
    );
    assert(spec_encode(other, window_index, replica_id, data) =~= spec_encode(
        config,
        window_index,
        replica_id,
        data,
    ));
    assert(spec_decode(other, window_index, replica_id, data) =~= spec_decode(
        config,
        window_index,
        replica_id,
        data,
    ));
}

/// No label layer depends on the batching factor.
proof fn lemma_label_layer_ignores_k(
    config: Config,
    k: u32,
    window_index: u32,
    replica_id: Seq<u8>,
    layer_index: nat,
)
    ensures
        spec_label_layer(Config { k, ..config }, window_index, replica_id, layer_index)
            == spec_label_layer(config, window_index, replica_id, layer_index),
    decreases layer_index,
{
    let other = Config { k, ..config };
    if layer_index > 1 {
        lemma_label_layer_ignores_k(config, k, window_index, replica_id, (layer_index - 1) as nat);
    }
    assert(spec_label_layer(other, window_index, replica_id, layer_index) =~= spec_label_layer(
        config,
        window_index,
        replica_id,
        layer_index,
    ));
}

} // verus!
