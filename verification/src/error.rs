//! The ways in which a request to the label pipeline is turned down.

use vstd::prelude::*;

verus! {

/// Why a layer was not produced. Whatever the reason, the output buffer is
/// left as it was.
#[derive(Clone, Copy, Debug, PartialEq, Eq, Structural)]
pub enum Error {
    /// The configuration does not describe a window: its size is not a
    /// whole number of nodes, a degree or a layer count is out of range, or
    /// the butterfly degree is odd.
    InvalidConfig,
    /// A buffer does not have the window's size.
    BufferLength,
    /// The layer index does not belong to the requested stage.
    LayerIndex,
    /// Thirty-two bytes that should hold a domain element do not: the
    /// buffer is of another length, or its value is not below the modulus.
    DomainConversion,
}

} // verus!
