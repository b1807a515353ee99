//! The graph container.

use crate::edge::Edge;
use crate::index::is_random_form;
use crate::index::EdgeIndex;
use crate::index::NodeIndex;
use crate::model::lists;
use crate::model::GraphView;
use std::collections::HashMap;
use vstd::prelude::*;
use vstd::std_specs::iter::IteratorSpec;

verus! {

broadcast use vstd::std_specs::hash::group_hash_axioms;

/// What one walk over a hash map with the contents `store` yields: every entry
/// of `store`, once.
spec fn is_walk_of<Entry>(walk: Seq<(&u128, &Entry)>, store: Map<u128, Entry>) -> bool {
    &&& walk.no_duplicates()
    &&& walk.len() == store.len()
    &&& forall|i: int|
        0 <= i < walk.len() ==> store.contains_pair(*(#[trigger] walk[i]).0, *walk[i].1)
    &&& forall|key: u128| #[trigger]
        store.contains_key(key) ==> walk.contains((&key, &store[key]))
}

/// A sequence that gives an identifier to each key of a walk over `store`, in
/// the walk's order, lists `store`.
proof fn lemma_walk_lists<Id, Entry>(
    walk: Seq<(&u128, &Entry)>,
    listing: Seq<(Id, &Entry)>,
    value_of: spec_fn(Id) -> u128,
    store: Map<u128, Entry>,
)
    requires
        is_walk_of(walk, store),
        listing.len() == walk.len(),
        forall|i: int|
            0 <= i < listing.len() ==> value_of((#[trigger] listing[i]).0) == *walk[i].0
                && listing[i].1 == walk[i].1,
    ensures
        lists(listing, value_of, store),
{
    assert forall|i: int, j: int| 0 <= i < j < listing.len() implies value_of(
        (#[trigger] listing[i]).0,
    ) != value_of((#[trigger] listing[j]).0) by {
        assert(store.contains_pair(*walk[i].0, *walk[i].1));
        assert(store.contains_pair(*walk[j].0, *walk[j].1));
        assert(walk[i] != walk[j]);
    }
    assert forall|id: u128| #[trigger] store.contains_key(id) implies exists|i: int|
        0 <= i < listing.len() && value_of((#[trigger] listing[i]).0) == id by {
        let i = choose|i: int| 0 <= i < walk.len() && walk[i] == (&id, &store[id]);
        assert(value_of(listing[i].0) == id);
    }
}

/// A graph generic over node and edge data.
///
/// The graph owns a store of nodes and a store of edges and makes no
/// guarantees as to its structure beyond that. Nothing is checked when an edge
/// is stored, and removing a node leaves the edges that name it in place. An
/// edge that names a node which is not stored looks the same whether that node
/// was removed, was never stored, or is stored in another graph.
#[derive(Debug)]
pub struct Graph<Node, EdgeData> {
    nodes: HashMap<u128, Node>,
    edges: HashMap<u128, Edge<EdgeData>>,
}

impl<Node, EdgeData> View for Graph<Node, EdgeData> {
    type V = GraphView<Node, EdgeData>;

    closed spec fn view(&self) -> GraphView<Node, EdgeData> {
        GraphView { nodes: self.nodes@, edges: self.edges@ }
    }
}

impl<Node, EdgeData> Graph<Node, EdgeData> {
    /// Both stores are finite, and every key of either has the form of a
    /// random UUID, as every minted identifier has.
    #[verifier::type_invariant]
    pub open spec fn well_formed(&self) -> bool {
        self@.well_formed()
    }

    /// Create a new graph with empty nodes and edges.
    pub fn new() -> (graph: Self)
        ensures
            graph@ == GraphView::<Node, EdgeData>::empty(),
    {
        Self { nodes: HashMap::new(), edges: HashMap::new() }
    }

    /// The graph's nodes, each with its index, in no particular order.
    pub fn nodes<'a>(&'a self) -> (listing: Vec<(NodeIndex, &'a Node)>)
        ensures
            lists(listing@, |idx: NodeIndex| idx@, self@.nodes),
    {
        proof {
            use_type_invariant(self);
        }
        let mut listing: Vec<(NodeIndex, &'a Node)> = Vec::new();
        for (key, node) in entries: self.nodes.iter()
            invariant
                self@.well_formed(),
                entries.seq() == self.nodes.iter().remaining(),
                is_walk_of(entries.seq(), self.nodes@),
                listing@.len() == entries.index(),
                forall|i: int|
                    0 <= i < listing@.len() ==> (#[trigger] listing@[i]).0@ == *entries.seq()[i].0
                        && listing@[i].1 == entries.seq()[i].1,
        {
            listing.push((NodeIndex::from_value(*key), node));
        }
        proof {
            lemma_walk_lists(
                self.nodes.iter().remaining(),
                listing@,
                |idx: NodeIndex| idx@,
                self.nodes@,
            );
        }
        listing
    }

    /// The graph's edges, each with its index, in no particular order.
    pub fn edges<'a>(&'a self) -> (listing: Vec<(EdgeIndex, &'a Edge<EdgeData>)>)
        ensures
            lists(listing@, |idx: EdgeIndex| idx@, self@.edges),
    {
        proof {
            use_type_invariant(self);
        }
        let mut listing: Vec<(EdgeIndex, &'a Edge<EdgeData>)> = Vec::new();
        for (key, edge) in entries: self.edges.iter()
            invariant
                self@.well_formed(),
                entries.seq() == self.edges.iter().remaining(),
                is_walk_of(entries.seq(), self.edges@),
                listing@.len() == entries.index(),
                forall|i: int|
                    0 <= i < listing@.len() ==> (#[trigger] listing@[i]).0@ == *entries.seq()[i].0
                        && listing@[i].1 == entries.seq()[i].1,
        {
            listing.push((EdgeIndex::from_value(*key), edge));
        }
        proof {
            lemma_walk_lists(
                self.edges.iter().remaining(),
                listing@,
                |idx: EdgeIndex| idx@,
                self.edges@,
            );
        }
        listing
    }

    /// Store `node` under the index `idx`, in place of what was stored there.
    pub fn insert_node(&mut self, idx: NodeIndex, node: Node)
        ensures
            final(self)@ == old(self)@.insert_node(idx@, node),
    {
        proof {
            use_type_invariant(&*self);
            use_type_invariant(&idx);
        }
        // The store is moved out while it changes: the graph is well formed
        // at every step.
        let mut nodes = HashMap::new();
        std::mem::swap(&mut nodes, &mut self.nodes);
        nodes.insert(idx.value(), node);
        self.nodes = nodes;
    }

    /// Store `edge` under the index `idx`, in place of what was stored there.
    ///
    /// The nodes that `edge` names are not looked up.
    pub fn insert_edge(&mut self, idx: EdgeIndex, edge: Edge<EdgeData>)
        ensures
            final(self)@ == old(self)@.insert_edge(idx@, edge),
    {
        proof {
            use_type_invariant(&*self);
            use_type_invariant(&idx);
        }
        let mut edges = HashMap::new();
        std::mem::swap(&mut edges, &mut self.edges);
        edges.insert(idx.value(), edge);
        self.edges = edges;
    }

    /// A convenience function to insert an edge at a new index.
    pub fn edge(&mut self, edge: Edge<EdgeData>) -> (idx: EdgeIndex)
        ensures
            is_random_form(idx@),
            final(self)@ == old(self)@.insert_edge(idx@, edge),
    {
        let idx = EdgeIndex::new();
        self.insert_edge(idx, edge);
        idx
    }

    /// Attempt to remove an edge from this graph, returning it if it
    /// existed.
    pub fn r_edge(&mut self, idx: EdgeIndex) -> (removed: Option<Edge<EdgeData>>)
        ensures
            removed == old(self)@.edge_at(idx@),
            final(self)@ == old(self)@.remove_edge(idx@),
    {
        proof {
            use_type_invariant(&*self);
        }
        let key = idx.value();
        let mut edges = HashMap::new();
        std::mem::swap(&mut edges, &mut self.edges);
        let removed = edges.remove(&key);
        self.edges = edges;
        removed
    }

    /// A convenience function to insert a node at a new index.
    pub fn node(&mut self, node: Node) -> (idx: NodeIndex)
        ensures
            is_random_form(idx@),
            final(self)@ == old(self)@.insert_node(idx@, node),
    {
        let idx = NodeIndex::new();
        self.insert_node(idx, node);
        idx
    }

    /// Attempt to remove a node from this graph, returning it if it
    /// existed.
    ///
    /// Note that this will *not* check if any edges still have the node
    /// referenced.
    pub fn r_node(&mut self, idx: NodeIndex) -> (removed: Option<Node>)
        ensures
            removed == old(self)@.node_at(idx@),
            final(self)@ == old(self)@.remove_node(idx@),
    {
        proof {
            use_type_invariant(&*self);
        }
        let key = idx.value();
        let mut nodes = HashMap::new();
        std::mem::swap(&mut nodes, &mut self.nodes);
        let removed = nodes.remove(&key);
        self.nodes = nodes;
        removed
    }
}

} // verus!
