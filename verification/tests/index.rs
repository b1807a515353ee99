use generic_graph::index::FORM_MASK;
use generic_graph::index::RANDOM_FORM;
use generic_graph::EdgeIndex;
use generic_graph::NodeIndex;
use std::cmp::Ordering;
use std::collections::BTreeSet;
use std::collections::HashSet;

#[test]
fn a_million_node_indices_are_distinct() {
    let mut seen = HashSet::new();
    for _ in 0..1_000_000u32 {
        assert!(seen.insert(NodeIndex::new()));
    }
    assert_eq!(seen.len(), 1_000_000);
}

#[test]
fn a_million_edge_indices_are_distinct() {
    let mut seen = HashSet::new();
    for _ in 0..1_000_000u32 {
        assert!(seen.insert(EdgeIndex::new()));
    }
    assert_eq!(seen.len(), 1_000_000);
}

#[test]
fn node_index_has_the_form_of_a_random_uuid() {
    for _ in 0..1000 {
        let value = NodeIndex::new().value();
        assert_eq!(value & FORM_MASK, RANDOM_FORM);
        assert_eq!((value >> 76) & 0xf, 4);
        assert_eq!((value >> 62) & 0x3, 2);
    }
}

#[test]
fn edge_index_has_the_form_of_a_random_uuid() {
    for _ in 0..1000 {
        let value = EdgeIndex::new().value();
        assert_eq!(value & FORM_MASK, RANDOM_FORM);
        assert_eq!((value >> 76) & 0xf, 4);
        assert_eq!((value >> 62) & 0x3, 2);
    }
}

#[test]
fn form_constants_have_their_exact_values() {
    assert_eq!(FORM_MASK, 0xf000_c000_0000_0000_0000u128);
    assert_eq!(RANDOM_FORM, 0x4000_8000_0000_0000_0000u128);
    assert_eq!(FORM_MASK, (0xfu128 << 76) | (0x3u128 << 62));
    assert_eq!(RANDOM_FORM, (0x4u128 << 76) | (0x2u128 << 62));
}

#[test]
fn random_bits_of_an_index_vary() {
    let mut ones = 0u128;
    let mut zeros = 0u128;
    for _ in 0..1000 {
        let value = NodeIndex::new().value();
        ones |= value;
        zeros |= !value;
    }
    assert_eq!(ones & !FORM_MASK, !FORM_MASK);
    assert_eq!(zeros & !FORM_MASK, !FORM_MASK);
}

#[test]
fn node_indices_compare_by_value() {
    for _ in 0..200 {
        let a = NodeIndex::new();
        let b = NodeIndex::new();
        assert_eq!(a == b, a.value() == b.value());
        assert_eq!(a != b, a.value() != b.value());
        assert_eq!(a < b, a.value() < b.value());
        assert_eq!(a <= b, a.value() <= b.value());
        assert_eq!(a > b, a.value() > b.value());
        assert_eq!(a >= b, a.value() >= b.value());
        assert_eq!(a.partial_cmp(&b), Some(a.value().cmp(&b.value())));
        assert_eq!(a.cmp(&b), a.value().cmp(&b.value()));
    }
}

#[test]
fn edge_indices_compare_by_value() {
    for _ in 0..200 {
        let a = EdgeIndex::new();
        let b = EdgeIndex::new();
        assert_eq!(a == b, a.value() == b.value());
        assert_eq!(a != b, a.value() != b.value());
        assert_eq!(a < b, a.value() < b.value());
        assert_eq!(a <= b, a.value() <= b.value());
        assert_eq!(a > b, a.value() > b.value());
        assert_eq!(a >= b, a.value() >= b.value());
        assert_eq!(a.partial_cmp(&b), Some(a.value().cmp(&b.value())));
        assert_eq!(a.cmp(&b), a.value().cmp(&b.value()));
    }
}

#[test]
fn an_index_equals_its_copy() {
    let a = NodeIndex::new();
    let copy = a;
    let clone = a.clone();
    assert_eq!(a, copy);
    assert_eq!(a, clone);
    assert_eq!(a.value(), copy.value());
    assert_eq!(a.partial_cmp(&copy), Some(Ordering::Equal));
    assert_eq!(a.cmp(&clone), Ordering::Equal);

    let e = EdgeIndex::new();
    let copy = e;
    assert_eq!(e, copy);
    assert_eq!(e.partial_cmp(&copy), Some(Ordering::Equal));
    assert_eq!(e.cmp(&e.clone()), Ordering::Equal);
}

#[test]
fn indices_serve_as_keys_of_hashed_and_ordered_sets() {
    let ids: Vec<NodeIndex> = (0..100).map(|_| NodeIndex::new()).collect();
    let hashed: HashSet<NodeIndex> = ids.iter().copied().collect();
    let ordered: BTreeSet<NodeIndex> = ids.iter().copied().collect();
    assert_eq!(hashed.len(), 100);
    assert_eq!(ordered.len(), 100);
    for id in &ids {
        assert!(hashed.contains(id));
        assert!(ordered.contains(id));
    }
    let values: Vec<u128> = ordered.iter().map(|id| id.value()).collect();
    let mut sorted = values.clone();
    sorted.sort();
    assert_eq!(values, sorted);

    let edge_ids: Vec<EdgeIndex> = (0..100).map(|_| EdgeIndex::new()).collect();
    let hashed: HashSet<EdgeIndex> = edge_ids.iter().copied().collect();
    let ordered: BTreeSet<EdgeIndex> = edge_ids.iter().copied().collect();
    assert_eq!(hashed.len(), 100);
    assert_eq!(ordered.len(), 100);
}
