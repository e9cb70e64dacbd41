//! Label layers for narrow stacked expander replication: a window of data is
//! sealed by deriving a mask layer, a run of expander layers and a run of
//! butterfly layers from a replica identifier, and folding the last layer
//! into the data as field elements.

pub mod batch_hasher;
pub mod butterfly_graph;
pub mod bytes;
pub mod config;
pub mod domain;
pub mod error;
pub mod expander_graph;
pub mod hash;
pub mod labels;
pub mod node;
pub mod pipeline;
pub mod point;
