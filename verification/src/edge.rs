//! The record stored for an edge.

use crate::index::NodeIndex;
use vstd::prelude::*;

verus! {

/// A struct representing an edge between two nodes.
///
/// The pair of node indices is ordered; what the order means is up to the
/// caller. An edge says nothing about whether the nodes it names are stored in
/// any graph.
#[derive(Debug)]
pub struct Edge<Data> {
    pub nodes: (NodeIndex, NodeIndex),
    pub data: Data,
}

impl<Data> Edge<Data> {
    /// Create a new edge with nodes and data.
    pub fn new(nodes: (NodeIndex, NodeIndex), data: Data) -> (edge: Edge<Data>)
        ensures
            edge == (Edge { nodes, data }),
    {
        Edge { nodes, data }
    }
}

impl<Data: Clone> Clone for Edge<Data> {
    /// The copy names the same nodes; its payload is a clone of this payload.
    fn clone(&self) -> (copy: Self)
        ensures
            copy.nodes == self.nodes,
            cloned(self.data, copy.data),
    {
        Edge { nodes: self.nodes, data: self.data.clone() }
    }
}

} // verus!
