//! The butterfly graph: which nodes of the previous layer a node of a
//! butterfly layer is hashed from. The graph changes from layer to layer:
//! the parents of a node lie a stride apart, and the stride shrinks by the
//! degree with every layer, down to one at the last.

use vstd::prelude::*;
use vstd::arithmetic::div_mod::{
    lemma_add_mod_noop_right, lemma_mod_bound, lemma_mul_mod_noop, lemma_mul_mod_noop_right,
    lemma_small_mod,
};
use vstd::arithmetic::power::pow;
use crate::config::Config;
use crate::node::NODE_SIZE;

verus! {

/// How many layers follow `layer` among `num_layers`, and none if `layer`
/// lies beyond them.
pub open spec fn layers_after(num_layers: nat, layer: u32) -> nat {
    if layer <= num_layers {
        (num_layers - layer) as nat
    } else {
        0
    }
}

/// The distance between two neighbouring parents of a node at `layer`:
/// the degree to the power of the number of layers that follow.
pub open spec fn butterfly_stride(degree: nat, num_layers: nat, layer: u32) -> int {
    pow(degree as int, layers_after(num_layers, layer))
}

/// The parent of `node` at `layer` in slot `slot`: `slot` strides beyond
/// the node, wrapping around the window. In a window without nodes every
/// parent is 0.
pub open spec fn butterfly_parent(
    degree: nat,
    num_leafs: nat,
    num_layers: nat,
    node: u32,
    layer: u32,
    slot: nat,
) -> u32 {
    if num_leafs == 0 {
        0
    } else {
        ((node + slot * butterfly_stride(degree, num_layers, layer)) % (num_leafs as int)) as u32
    }
}

/// The butterfly graph which provides the parents for the butterfly layers.
#[derive(Clone, Copy, Debug)]
pub struct ButterflyGraph {
    /// The degree of the graph.
    pub degree: usize,
    /// The number of nodes in a window.
    pub num_leafs: usize,
    /// Total number of layers.
    pub num_layers: usize,
}

impl ButterflyGraph {
    /// The butterfly graph of a window with the parameters `config`.
    pub open spec fn spec_new(config: Config) -> ButterflyGraph {
        ButterflyGraph {
            degree: config.degree_butterfly,
            num_leafs: config.n / NODE_SIZE,
            num_layers: (config.num_expander_layers + config.num_butterfly_layers) as usize,
        }
    }

    /// The butterfly graph of a window with the parameters `config`.
    pub fn new(config: &Config) -> (graph: ButterflyGraph)
        requires
            config.num_expander_layers + config.num_butterfly_layers <= usize::MAX,
        ensures
            graph == Self::spec_new(*config),
    {
        ButterflyGraph {
            degree: config.degree_butterfly,
            num_leafs: config.n / NODE_SIZE,
            num_layers: config.num_expander_layers + config.num_butterfly_layers,
        }
    }

    /// The parents of `node` at `layer`, in order.
    pub open spec fn spec_parents(&self, node: u32, layer: u32) -> Seq<u32> {
        Seq::new(
            self.degree as nat,
            |slot: int|
                butterfly_parent(
                    self.degree as nat,
                    self.num_leafs as nat,
                    self.num_layers as nat,
                    node,
                    layer,
                    slot as nat,
                ),
        )
    }

    /// The stride at `layer`, reduced modulo the number of nodes.
    fn reduced_stride(&self, layer: u32) -> (stride: u64)
        requires
            self.num_leafs > 0,
        ensures
            stride == butterfly_stride(self.degree as nat, self.num_layers as nat, layer) % (
            self.num_leafs as int),
            stride < self.num_leafs,
    {
        let modulus = self.num_leafs as u64;
        let base = self.degree as u64 % modulus;
        let steps: usize = if layer as usize <= self.num_layers {
            self.num_layers - layer as usize
        } else {
            0
        };
        let mut stride: u64 = 1 % modulus;
        let mut step: usize = 0;
        proof {
            reveal(pow);
            if modulus > 1 {
                lemma_small_mod(1, modulus as nat);
            }
        }
        while step < steps
            invariant
                0 <= step <= steps,
                modulus == self.num_leafs,
                modulus > 0,
                base == self.degree as int % modulus as int,
                stride == pow(self.degree as int, step as nat) % (modulus as int),
                stride < modulus,
            decreases steps - step,
        {
            proof {
                let power = pow(self.degree as int, step as nat);
                reveal(pow);
                assert(pow(self.degree as int, (step + 1) as nat) == self.degree as int * power);
                lemma_mul_mod_noop(self.degree as int, power, modulus as int);
                lemma_mod_bound(base as int * stride as int, modulus as int);
                assert(stride as int * base as int == base as int * stride as int)
                    by (nonlinear_arith);
                assert(stride as int * base as int <= 0xffff_ffff_ffff_ffff
                    * 0xffff_ffff_ffff_ffff) by (nonlinear_arith)
                    requires
                        0 <= stride as int <= 0xffff_ffff_ffff_ffff,
                        0 <= base as int <= 0xffff_ffff_ffff_ffff,
                ;
            }
            stride = ((stride as u128 * base as u128) % (modulus as u128)) as u64;
            step += 1;
        }
        stride
    }

    /// Calculates the parents for the node at the given `index`, at the
    /// given `layer`: as many as the degree, each the index of a node of
    /// the window.
    pub fn parents(&self, index: u32, layer: u32) -> (parents: Vec<u32>)
        ensures
            parents@ == self.spec_parents(index, layer),
            forall|slot: int|
                0 <= slot < parents@.len() && self.num_leafs > 0 ==> parents@[slot]
                    < self.num_leafs,
    {
        let mut parents: Vec<u32> = Vec::new();
        let stride: u64 = if self.num_leafs == 0 {
            0
        } else {
            self.reduced_stride(layer)
        };
        let mut slot: usize = 0;
        while slot < self.degree
            invariant
                0 <= slot <= self.degree,
                parents@.len() == slot,
                self.num_leafs > 0 ==> stride == butterfly_stride(
                    self.degree as nat,
                    self.num_layers as nat,
                    layer,
                ) % (self.num_leafs as int),
                forall|s: int|
                    0 <= s < slot ==> parents@[s] == butterfly_parent(
                        self.degree as nat,
                        self.num_leafs as nat,
                        self.num_layers as nat,
                        index,
                        layer,
                        s as nat,
                    ),
                forall|s: int| 0 <= s < slot && self.num_leafs > 0 ==> parents@[s] < self.num_leafs,
            decreases self.degree - slot,
        {
            let parent: u32 = if self.num_leafs == 0 {
                0
            } else {
                proof {
                    let full = butterfly_stride(self.degree as nat, self.num_layers as nat, layer);
                    let m = self.num_leafs as int;
                    lemma_mul_mod_noop_right(slot as int, full, m);
                    lemma_add_mod_noop_right(index as int, slot as int * full, m);
                    lemma_add_mod_noop_right(index as int, slot as int * stride as int, m);
                    lemma_mod_bound(index as int + slot as int * stride as int, m);
                    assert(slot as int * stride as int <= 0xffff_ffff_ffff_ffff
                        * 0xffff_ffff_ffff_ffff) by (nonlinear_arith)
                        requires
                            0 <= slot as int <= 0xffff_ffff_ffff_ffff,
                            0 <= stride as int <= 0xffff_ffff_ffff_ffff,
                    ;
                }
                ((index as u128 + slot as u128 * stride as u128) % (self.num_leafs as u128)) as u32
            };
            parents.push(parent);
            slot += 1;
        }
        assert(parents@ =~= self.spec_parents(index, layer));
        parents
    }
}

} // verus!
