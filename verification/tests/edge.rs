use generic_graph::Edge;
use generic_graph::NodeIndex;

#[test]
fn new_edge_holds_its_nodes_and_data() {
    let from = NodeIndex::new();
    let to = NodeIndex::new();
    let edge = Edge::new((from, to), String::from("weight"));
    assert_eq!(edge.nodes.0, from);
    assert_eq!(edge.nodes.1, to);
    assert_eq!(edge.data, "weight");
}

#[test]
fn new_edge_keeps_the_order_of_its_nodes() {
    let from = NodeIndex::new();
    let to = NodeIndex::new();
    let forward = Edge::new((from, to), 1u8);
    let backward = Edge::new((to, from), 1u8);
    assert_eq!(forward.nodes, (from, to));
    assert_eq!(backward.nodes, (to, from));
    assert_ne!(forward.nodes, backward.nodes);
}

#[test]
fn cloned_edge_names_the_same_nodes_and_data() {
    let from = NodeIndex::new();
    let to = NodeIndex::new();
    let edge = Edge::new((from, to), vec![1u8, 2, 3]);
    let copy = edge.clone();
    assert_eq!(copy.nodes, edge.nodes);
    assert_eq!(copy.data, edge.data);
    assert_eq!(copy.data, vec![1u8, 2, 3]);
}

#[test]
fn edge_is_shown_for_debugging() {
    let from = NodeIndex::new();
    let edge = Edge::new((from, from), 7u8);
    let shown = format!("{:?}", edge);
    assert!(shown.starts_with("Edge"));
    assert!(shown.contains("data: 7"));
}
