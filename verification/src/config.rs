//! The parameters of a window and of the layers built over it.

use vstd::prelude::*;
use crate::error::Error;
use crate::node::NODE_SIZE;

verus! {

/// The largest degree a graph may have: parents are counted in 32 bits.
pub const MAX_DEGREE: usize = 0xffff_ffff;

/// The largest number of nodes in a window, and of layers over it: nodes
/// and layers are indexed in 32 bits.
pub const MAX_INDEX: usize = 0xffff_ffff;

/// The configuration parameters of the label layers.
#[derive(Clone, Copy, Debug, PartialEq, Eq, Structural, Hash)]
pub struct Config {
    /// Batch hashing factor.
    pub k: u32,
    /// Number of bytes in a window.
    pub n: usize,
    /// Degree of the expander graph.
    pub degree_expander: usize,
    /// Degree of the butterfly graph.
    pub degree_butterfly: usize,
    /// Number of expander layers, the mask layer among them.
    pub num_expander_layers: usize,
    /// Number of butterfly layers, the encoding layer among them.
    pub num_butterfly_layers: usize,
}

impl Config {
    /// Whether the parameters describe a window that the layers can be
    /// built over: the window is a whole number of nodes, butterfly parents
    /// come in pairs, there is a mask layer and an encoding layer, and
    /// nodes, parents and layers can be counted in 32 bits.
    pub open spec fn valid(&self) -> bool {
        &&& self.n % NODE_SIZE == 0
        &&& self.n / NODE_SIZE <= MAX_INDEX
        &&& self.degree_expander <= MAX_DEGREE
        &&& self.degree_butterfly <= MAX_DEGREE
        &&& self.degree_butterfly % 2 == 0
        &&& 1 <= self.num_expander_layers
        &&& 1 <= self.num_butterfly_layers
        &&& self.num_expander_layers + self.num_butterfly_layers <= MAX_INDEX
    }

    /// Total number of layers, as a number.
    pub open spec fn spec_num_layers(&self) -> nat {
        (self.num_expander_layers + self.num_butterfly_layers) as nat
    }

    /// Number of nodes in a window, as a number.
    pub open spec fn spec_num_leafs(&self) -> nat {
        (self.n / NODE_SIZE) as nat
    }

    /// Whether the parameters describe a window that the layers can be
    /// built over.
    pub fn is_valid(&self) -> (ok: bool)
        ensures
            ok == self.valid(),
    {
        self.n % NODE_SIZE == 0 && self.n / NODE_SIZE <= MAX_INDEX && self.degree_expander
            <= MAX_DEGREE && self.degree_butterfly <= MAX_DEGREE && self.degree_butterfly % 2 == 0
            && 1 <= self.num_expander_layers && 1 <= self.num_butterfly_layers
            && self.num_expander_layers <= MAX_INDEX && self.num_butterfly_layers <= MAX_INDEX
            - self.num_expander_layers
    }

    /// Accepts the parameters, or says that they are malformed.
    pub fn validate(&self) -> (res: Result<(), Error>)
        ensures
            self.valid() ==> res == Ok::<(), Error>(()),
            !self.valid() ==> res == Err::<(), Error>(Error::InvalidConfig),
    {
        if self.is_valid() {
            Ok(())
        } else {
            Err(Error::InvalidConfig)
        }
    }

    /// Total number of layers.
    pub fn num_layers(&self) -> (layers: usize)
        requires
            self.num_expander_layers + self.num_butterfly_layers <= usize::MAX,
        ensures
            layers == self.spec_num_layers(),
    {
        self.num_expander_layers + self.num_butterfly_layers
    }

    /// Number of nodes in a window.
    pub fn num_leafs(&self) -> (leafs: usize)
        ensures
            leafs == self.spec_num_leafs(),
    {
        self.n / NODE_SIZE
    }
}

} // verus!
