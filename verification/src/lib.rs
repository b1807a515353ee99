//! A graph container generic over node and edge payloads.
//!
//! Nodes and edges live in two independent stores and are reached through
//! randomly minted 128-bit identifiers. The container imposes no structure on
//! the graph it holds: an edge may name a node that is not, or is no longer,
//! stored.

pub mod edge;
pub mod graph;
pub mod index;
pub mod model;
pub mod prelude;

pub use crate::edge::Edge;
pub use crate::graph::Graph;
pub use crate::index::EdgeIndex;
pub use crate::index::NodeIndex;
