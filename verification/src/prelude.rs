//! The container, the two index types and the edge record, in one import.

pub use crate::edge::Edge;
pub use crate::graph::Graph;
pub use crate::index::EdgeIndex;
pub use crate::index::NodeIndex;
