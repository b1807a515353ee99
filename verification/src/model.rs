//! The mathematical model of a graph: two independent finite maps keyed by
//! identifier values.

use crate::edge::Edge;
use crate::index::is_random_form;
use crate::index::EdgeIndex;
use crate::index::NodeIndex;
use vstd::prelude::*;

verus! {

/// Whether `listing` names every entry of `store` exactly once, in some order.
pub open spec fn lists<Id, Entry>(
    listing: Seq<(Id, &Entry)>,
    value_of: spec_fn(Id) -> u128,
    store: Map<u128, Entry>,
) -> bool {
    &&& listing.len() == store.len()
    &&& forall|i: int|
        0 <= i < listing.len() ==> store.contains_pair(
            value_of((#[trigger] listing[i]).0),
            *listing[i].1,
        )
    &&& forall|i: int, j: int|
        0 <= i < j < listing.len() ==> value_of((#[trigger] listing[i]).0) != value_of(
            (#[trigger] listing[j]).0,
        )
    &&& forall|id: u128| #[trigger]
        store.contains_key(id) ==> exists|i: int|
            0 <= i < listing.len() && value_of((#[trigger] listing[i]).0) == id
}

/// What a graph holds, seen as two maps from identifier values to payloads.
pub struct GraphView<Node, EdgeData> {
    /// The node store: the payload of each stored node, by the node's identifier value.
    pub nodes: Map<u128, Node>,
    /// The edge store: the record of each stored edge, by the edge's identifier value.
    pub edges: Map<u128, Edge<EdgeData>>,
}

impl<Node, EdgeData> GraphView<Node, EdgeData> {
    /// The graph that stores nothing.
    pub open spec fn empty() -> Self {
        GraphView { nodes: Map::empty(), edges: Map::empty() }
    }

    /// Both stores are finite and every key has the form of a random UUID.
    pub open spec fn well_formed(self) -> bool {
        &&& self.nodes.dom().finite()
        &&& self.edges.dom().finite()
        &&& forall|id: u128| self.nodes.contains_key(id) ==> is_random_form(id)
        &&& forall|id: u128| self.edges.contains_key(id) ==> is_random_form(id)
    }

    /// The payload stored for node `id`, if there is one.
    pub open spec fn node_at(self, id: u128) -> Option<Node> {
        if self.nodes.contains_key(id) {
            Some(self.nodes[id])
        } else {
            None
        }
    }

    /// The record stored for edge `id`, if there is one.
    pub open spec fn edge_at(self, id: u128) -> Option<Edge<EdgeData>> {
        if self.edges.contains_key(id) {
            Some(self.edges[id])
        } else {
            None
        }
    }

    /// The graph after `node` is stored under `id`. The edge store is untouched.
    pub open spec fn insert_node(self, id: u128, node: Node) -> Self {
        GraphView { nodes: self.nodes.insert(id, node), edges: self.edges }
    }

    /// The graph after node `id` is removed. The edge store is untouched, also
    /// where an edge names `id`.
    pub open spec fn remove_node(self, id: u128) -> Self {
        GraphView { nodes: self.nodes.remove(id), edges: self.edges }
    }

    /// The graph after `edge` is stored under `id`. The node store is untouched,
    /// and the nodes that `edge` names need not be in it.
    pub open spec fn insert_edge(self, id: u128, edge: Edge<EdgeData>) -> Self {
        GraphView { nodes: self.nodes, edges: self.edges.insert(id, edge) }
    }

    /// The graph after edge `id` is removed. The node store is untouched.
    pub open spec fn remove_edge(self, id: u128) -> Self {
        GraphView { nodes: self.nodes, edges: self.edges.remove(id) }
    }
}

/// Under a key that `store` does not hold, a stored entry is exactly one new
/// entry of every listing: it shows once, it did not show before, and the other
/// entries are those that showed before.
proof fn lemma_one_new_entry<Id, Entry>(
    store: Map<u128, Entry>,
    id: u128,
    entry: Entry,
    value_of: spec_fn(Id) -> u128,
    before: Seq<(Id, &Entry)>,
    after: Seq<(Id, &Entry)>,
)
    requires
        store.dom().finite(),
        !store.contains_key(id),
        lists(before, value_of, store),
        lists(after, value_of, store.insert(id, entry)),
    ensures
        after.len() == before.len() + 1,
        exists|i: int|
            0 <= i < after.len() && value_of((#[trigger] after[i]).0) == id && *after[i].1
                == entry,
        forall|i: int, j: int|
            0 <= i < after.len() && 0 <= j < after.len() && value_of((#[trigger] after[i]).0)
                == id && value_of((#[trigger] after[j]).0) == id ==> i == j,
        forall|i: int| 0 <= i < before.len() ==> value_of((#[trigger] before[i]).0) != id,
        forall|i: int|
            0 <= i < after.len() && value_of((#[trigger] after[i]).0) != id ==> exists|j: int|
                0 <= j < before.len() && value_of((#[trigger] before[j]).0) == value_of(
                    after[i].0,
                ) && *before[j].1 == *after[i].1,
{
    let grown = store.insert(id, entry);
    assert(grown.contains_key(id));
    let at = choose|i: int| 0 <= i < after.len() && value_of((#[trigger] after[i]).0) == id;
    assert(grown.contains_pair(value_of(after[at].0), *after[at].1));
    assert forall|i: int, j: int|
        0 <= i < after.len() && 0 <= j < after.len() && value_of((#[trigger] after[i]).0) == id
            && value_of((#[trigger] after[j]).0) == id implies i == j by {
        if i < j {
            assert(value_of(after[i].0) != value_of(after[j].0));
        } else if j < i {
            assert(value_of(after[j].0) != value_of(after[i].0));
        }
    }
    assert forall|i: int| 0 <= i < before.len() implies value_of((#[trigger] before[i]).0)
        != id by {
        assert(store.contains_pair(value_of(before[i].0), *before[i].1));
    }
    assert forall|i: int|
        0 <= i < after.len() && value_of((#[trigger] after[i]).0) != id implies exists|j: int|
        0 <= j < before.len() && value_of((#[trigger] before[j]).0) == value_of(after[i].0)
            && *before[j].1 == *after[i].1 by {
        let key = value_of(after[i].0);
        assert(grown.contains_pair(key, *after[i].1));
        assert(store.contains_key(key));
        let j = choose|j: int| 0 <= j < before.len() && value_of((#[trigger] before[j]).0) == key;
        assert(store.contains_pair(value_of(before[j].0), *before[j].1));
    }
}

/// A graph that was just created is empty: both stores count zero, nothing
/// is found in either, and a listing of either is the empty sequence.
pub proof fn lemma_empty_graph_holds_nothing<Node, EdgeData>(
    nodes: Seq<(NodeIndex, &Node)>,
    edges: Seq<(EdgeIndex, &Edge<EdgeData>)>,
)
    requires
        lists(nodes, |idx: NodeIndex| idx@, GraphView::<Node, EdgeData>::empty().nodes),
        lists(edges, |idx: EdgeIndex| idx@, GraphView::<Node, EdgeData>::empty().edges),
    ensures
        GraphView::<Node, EdgeData>::empty().well_formed(),
        GraphView::<Node, EdgeData>::empty().nodes.len() == 0,
        GraphView::<Node, EdgeData>::empty().edges.len() == 0,
        forall|id: u128| GraphView::<Node, EdgeData>::empty().node_at(id) is None,
        forall|id: u128| GraphView::<Node, EdgeData>::empty().edge_at(id) is None,
        nodes.len() == 0,
        edges.len() == 0,
{
}

/// Every operation keeps a well-formed graph well formed, where the identifier
/// that it stores under has the form of a random UUID.
pub proof fn lemma_operations_keep_well_formed<Node, EdgeData>(
    graph: GraphView<Node, EdgeData>,
    id: u128,
    node: Node,
    edge: Edge<EdgeData>,
)
    requires
        graph.well_formed(),
    ensures
        is_random_form(id) ==> graph.insert_node(id, node).well_formed(),
        is_random_form(id) ==> graph.insert_edge(id, edge).well_formed(),
        graph.remove_node(id).well_formed(),
        graph.remove_edge(id).well_formed(),
{
}

/// A stored node is found under its index with the payload it was stored with;
/// removing it hands that payload out, and after that the index is absent. All
/// of it holds also where the index was in use before.
pub proof fn lemma_node_round_trip<Node, EdgeData>(
    graph: GraphView<Node, EdgeData>,
    id: u128,
    node: Node,
)
    ensures
        graph.insert_node(id, node).nodes.contains_pair(id, node),
        graph.insert_node(id, node).node_at(id) == Some(node),
        graph.insert_node(id, node).remove_node(id).node_at(id) == None::<Node>,
        graph.insert_node(id, node).remove_node(id) == graph.remove_node(id),
        !graph.nodes.contains_key(id) ==> graph.insert_node(id, node).remove_node(id) == graph,
{
    assert(graph.nodes.insert(id, node).remove(id) =~= graph.nodes.remove(id));
    if !graph.nodes.contains_key(id) {
        assert(graph.nodes.remove(id) =~= graph.nodes);
    }
}

/// A stored edge is found under its index with the record it was stored with;
/// removing it hands that record out, and after that the index is absent. All
/// of it holds also where the index was in use before.
pub proof fn lemma_edge_round_trip<Node, EdgeData>(
    graph: GraphView<Node, EdgeData>,
    id: u128,
    edge: Edge<EdgeData>,
)
    ensures
        graph.insert_edge(id, edge).edges.contains_pair(id, edge),
        graph.insert_edge(id, edge).edge_at(id) == Some(edge),
        graph.insert_edge(id, edge).remove_edge(id).edge_at(id) == None::<Edge<EdgeData>>,
        graph.insert_edge(id, edge).remove_edge(id) == graph.remove_edge(id),
        !graph.edges.contains_key(id) ==> graph.insert_edge(id, edge).remove_edge(id) == graph,
{
    assert(graph.edges.insert(id, edge).remove(id) =~= graph.edges.remove(id));
    if !graph.edges.contains_key(id) {
        assert(graph.edges.remove(id) =~= graph.edges);
    }
}

/// A node stored under an index that the node store does not hold yet is
/// exactly one new entry: the store counts one more, a listing shows the index
/// once, with the payload, no listing showed it before, and all other entries
/// showed before.
pub proof fn lemma_fresh_node_is_one_new_entry<Node, EdgeData>(
    graph: GraphView<Node, EdgeData>,
    id: u128,
    node: Node,
    before: Seq<(NodeIndex, &Node)>,
    after: Seq<(NodeIndex, &Node)>,
)
    requires
        graph.well_formed(),
        !graph.nodes.contains_key(id),
        lists(before, |idx: NodeIndex| idx@, graph.nodes),
        lists(after, |idx: NodeIndex| idx@, graph.insert_node(id, node).nodes),
    ensures
        graph.insert_node(id, node).nodes.len() == graph.nodes.len() + 1,
        after.len() == before.len() + 1,
        exists|i: int| 0 <= i < after.len() && (#[trigger] after[i]).0@ == id && *after[i].1 == node,
        forall|i: int, j: int|
            0 <= i < after.len() && 0 <= j < after.len() && (#[trigger] after[i]).0@ == id && (
            #[trigger] after[j]).0@ == id ==> i == j,
        forall|i: int| 0 <= i < before.len() ==> (#[trigger] before[i]).0@ != id,
        forall|i: int|
            0 <= i < after.len() && (#[trigger] after[i]).0@ != id ==> exists|j: int|
                0 <= j < before.len() && (#[trigger] before[j]).0@ == after[i].0@ && *before[j].1
                    == *after[i].1,
{
    lemma_one_new_entry(graph.nodes, id, node, |idx: NodeIndex| idx@, before, after);
}

/// An edge stored under an index that the edge store does not hold yet is
/// exactly one new entry: the store counts one more, a listing shows the index
/// once, with the record, no listing showed it before, and all other entries
/// showed before.
pub proof fn lemma_fresh_edge_is_one_new_entry<Node, EdgeData>(
    graph: GraphView<Node, EdgeData>,
    id: u128,
    edge: Edge<EdgeData>,
    before: Seq<(EdgeIndex, &Edge<EdgeData>)>,
    after: Seq<(EdgeIndex, &Edge<EdgeData>)>,
)
    requires
        graph.well_formed(),
        !graph.edges.contains_key(id),
        lists(before, |idx: EdgeIndex| idx@, graph.edges),
        lists(after, |idx: EdgeIndex| idx@, graph.insert_edge(id, edge).edges),
    ensures
        graph.insert_edge(id, edge).edges.len() == graph.edges.len() + 1,
        after.len() == before.len() + 1,
        exists|i: int| 0 <= i < after.len() && (#[trigger] after[i]).0@ == id && *after[i].1 == edge,
        forall|i: int, j: int|
            0 <= i < after.len() && 0 <= j < after.len() && (#[trigger] after[i]).0@ == id && (
            #[trigger] after[j]).0@ == id ==> i == j,
        forall|i: int| 0 <= i < before.len() ==> (#[trigger] before[i]).0@ != id,
        forall|i: int|
            0 <= i < after.len() && (#[trigger] after[i]).0@ != id ==> exists|j: int|
                0 <= j < before.len() && (#[trigger] before[j]).0@ == after[i].0@ && *before[j].1
                    == *after[i].1,
{
    lemma_one_new_entry(graph.edges, id, edge, |idx: EdgeIndex| idx@, before, after);
}

/// The two stores are independent. No operation on the node store removes,
/// alters or counts away an edge, also where the edge names the node that was
/// removed; no operation on the edge store touches a node.
pub proof fn lemma_stores_are_independent<Node, EdgeData>(
    graph: GraphView<Node, EdgeData>,
    id: u128,
    node: Node,
    edge: Edge<EdgeData>,
)
    ensures
        graph.remove_node(id).edges == graph.edges,
        graph.remove_node(id).edges.len() == graph.edges.len(),
        forall|other: u128| graph.remove_node(id).edge_at(other) == graph.edge_at(other),
        graph.insert_node(id, node).edges == graph.edges,
        graph.remove_edge(id).nodes == graph.nodes,
        graph.insert_edge(id, edge).nodes == graph.nodes,
{
}

/// An edge that names a removed node stays stored as it was and still names
/// that node, which no longer resolves.
pub proof fn lemma_removed_node_leaves_dangling_edge<Node, EdgeData>(
    graph: GraphView<Node, EdgeData>,
    node_id: NodeIndex,
    edge_id: u128,
)
    requires
        graph.edges.contains_key(edge_id),
        graph.edges[edge_id].nodes.0 == node_id || graph.edges[edge_id].nodes.1 == node_id,
    ensures
        graph.remove_node(node_id@).edge_at(edge_id) == Some(graph.edges[edge_id]),
        graph.remove_node(node_id@).node_at(node_id@) == None::<Node>,
{
}

/// Removing what is not stored finds nothing and changes nothing.
pub proof fn lemma_removal_of_absent<Node, EdgeData>(graph: GraphView<Node, EdgeData>, id: u128)
    ensures
        !graph.nodes.contains_key(id) ==> graph.node_at(id) == None::<Node> && graph.remove_node(
            id,
        ) == graph,
        !graph.edges.contains_key(id) ==> graph.edge_at(id) == None::<Edge<EdgeData>>
            && graph.remove_edge(id) == graph,
{
    if !graph.nodes.contains_key(id) {
        assert(graph.nodes.remove(id) =~= graph.nodes);
    }
    if !graph.edges.contains_key(id) {
        assert(graph.edges.remove(id) =~= graph.edges);
    }
}

/// What was removed is absent: a second removal under the same index finds
/// nothing and changes nothing.
pub proof fn lemma_removed_is_absent<Node, EdgeData>(graph: GraphView<Node, EdgeData>, id: u128)
    ensures
        graph.remove_node(id).node_at(id) == None::<Node>,
        graph.remove_node(id).remove_node(id) == graph.remove_node(id),
        graph.remove_edge(id).edge_at(id) == None::<Edge<EdgeData>>,
        graph.remove_edge(id).remove_edge(id) == graph.remove_edge(id),
{
    assert(graph.nodes.remove(id).remove(id) =~= graph.nodes.remove(id));
    assert(graph.edges.remove(id).remove(id) =~= graph.edges.remove(id));
}

} // verus!
