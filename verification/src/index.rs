//! Identifiers of nodes and edges.
//!
//! An identifier is a 128-bit value in the form of a random (version 4) UUID.
//! Node and edge identifiers are separate types, so the two identifier spaces
//! cannot be mixed up.

use std::cmp::Ordering;
use uuid::Uuid;
use vstd::prelude::*;
use vstd::std_specs::cmp::PartialEqSpecImpl;
use vstd::std_specs::cmp::PartialOrdSpecImpl;

verus! {

/// The bits of an identifier's value that hold the UUID version and variant.
pub const FORM_MASK: u128 = 0x0000_0000_0000_f000_c000_0000_0000_0000;

/// What the bits under [`FORM_MASK`] are in a random UUID: version 4 and the
/// RFC variant.
pub const RANDOM_FORM: u128 = 0x0000_0000_0000_4000_8000_0000_0000_0000;

/// Whether `value` has the form of a random UUID. The other 122 bits are free.
pub open spec fn is_random_form(value: u128) -> bool {
    value & FORM_MASK == RANDOM_FORM
}

/// The version field of a UUID value: the high four bits of its seventh byte.
pub open spec fn version_of(value: u128) -> u128 {
    (value >> 76) & 0xf
}

/// The two-bit variant field of a UUID value: the high two bits of its ninth
/// byte.
pub open spec fn variant_of(value: u128) -> u128 {
    (value >> 62) & 0x3
}

/// A value has the form of a random UUID exactly when its version is 4 and its
/// variant is the RFC one, binary 10.
pub proof fn lemma_random_form_is_version_4(value: u128)
    ensures
        is_random_form(value) <==> version_of(value) == 4 && variant_of(value) == 2,
{
    assert((value & FORM_MASK == RANDOM_FORM) <==> ((value >> 76) & 0xf == 4 && (value >> 62) & 0x3
        == 2)) by (bit_vector);
}

/// Draws a random UUID with `uuid::Uuid::new_v4` and hands out its value as
/// `uuid::Uuid::as_u128` gives it.
///
/// Trusted: the value has the version and variant bits of a random UUID. Nothing
/// is claimed about the remaining bits, nor that two draws differ. The draw
/// panics if the operating system's random source fails.
#[verifier::external_body]
fn random_value() -> (value: u128)
    ensures
        is_random_form(value),
{
    Uuid::new_v4().as_u128()
}

/// How two identifier values compare as unsigned 128-bit numbers.
pub open spec fn value_order(left: u128, right: u128) -> Ordering {
    if left < right {
        Ordering::Less
    } else if left == right {
        Ordering::Equal
    } else {
        Ordering::Greater
    }
}

/// Compares two identifier values as unsigned 128-bit numbers.
fn order_values(left: u128, right: u128) -> (order: Ordering)
    ensures
        order == value_order(left, right),
{
    if left < right {
        Ordering::Less
    } else if left == right {
        Ordering::Equal
    } else {
        Ordering::Greater
    }
}

/// An index pointing to a node in the graph.
#[derive(Debug, Clone, Copy, Eq, Hash, Ord)]
pub struct NodeIndex(u128);

impl View for NodeIndex {
    type V = u128;

    closed spec fn view(&self) -> u128 {
        self.0
    }
}

impl NodeIndex {
    /// Every node index has the form of a random UUID.
    #[verifier::type_invariant]
    pub open spec fn well_formed(&self) -> bool {
        is_random_form(self@)
    }

    /// Create a new node index.
    pub fn new() -> (idx: NodeIndex)
        ensures
            is_random_form(idx@),
    {
        NodeIndex(random_value())
    }

    /// The index whose value is `value`.
    pub(crate) fn from_value(value: u128) -> (idx: NodeIndex)
        requires
            is_random_form(value),
        ensures
            idx@ == value,
    {
        NodeIndex(value)
    }

    /// The 128-bit value of this index.
    pub fn value(&self) -> (value: u128)
        ensures
            value == self@,
    {
        self.0
    }
}

/// Two node indices are the same index exactly when their values are equal.
pub proof fn lemma_node_index_is_its_value(left: NodeIndex, right: NodeIndex)
    ensures
        left == right <==> left@ == right@,
{
}

impl PartialEq for NodeIndex {
    fn eq(&self, other: &Self) -> (equal: bool) {
        self.0 == other.0
    }
}

impl PartialEqSpecImpl for NodeIndex {
    open spec fn obeys_eq_spec() -> bool {
        true
    }

    open spec fn eq_spec(&self, other: &Self) -> bool {
        self@ == other@
    }
}

impl PartialOrd for NodeIndex {
    fn partial_cmp(&self, other: &Self) -> (order: Option<Ordering>) {
        Some(order_values(self.0, other.0))
    }
}

impl PartialOrdSpecImpl for NodeIndex {
    open spec fn obeys_partial_cmp_spec() -> bool {
        true
    }

    open spec fn partial_cmp_spec(&self, other: &Self) -> Option<Ordering> {
        Some(value_order(self@, other@))
    }
}

/// An index pointing to an edge in the graph.
#[derive(Debug, Clone, Copy, Eq, Hash, Ord)]
pub struct EdgeIndex(u128);

impl View for EdgeIndex {
    type V = u128;

    closed spec fn view(&self) -> u128 {
        self.0
    }
}

impl EdgeIndex {
    /// Every edge index has the form of a random UUID.
    #[verifier::type_invariant]
    pub open spec fn well_formed(&self) -> bool {
        is_random_form(self@)
    }

    /// Create a new edge index.
    pub fn new() -> (idx: EdgeIndex)
        ensures
            is_random_form(idx@),
    {
        EdgeIndex(random_value())
    }

    /// The index whose value is `value`.
    pub(crate) fn from_value(value: u128) -> (idx: EdgeIndex)
        requires
            is_random_form(value),
        ensures
            idx@ == value,
    {
        EdgeIndex(value)
    }

    /// The 128-bit value of this index.
    pub fn value(&self) -> (value: u128)
        ensures
            value == self@,
    {
        self.0
    }
}

/// Two edge indices are the same index exactly when their values are equal.
pub proof fn lemma_edge_index_is_its_value(left: EdgeIndex, right: EdgeIndex)
    ensures
        left == right <==> left@ == right@,
{
}

impl PartialEq for EdgeIndex {
    fn eq(&self, other: &Self) -> (equal: bool) {
        self.0 == other.0
    }
}

impl PartialEqSpecImpl for EdgeIndex {
    open spec fn obeys_eq_spec() -> bool {
        true
    }

    open spec fn eq_spec(&self, other: &Self) -> bool {
        self@ == other@
    }
}

impl PartialOrd for EdgeIndex {
    fn partial_cmp(&self, other: &Self) -> (order: Option<Ordering>) {
        Some(order_values(self.0, other.0))
    }
}

impl PartialOrdSpecImpl for EdgeIndex {
    open spec fn obeys_partial_cmp_spec() -> bool {
        true
    }

    open spec fn partial_cmp_spec(&self, other: &Self) -> Option<Ordering> {
        Some(value_order(self@, other@))
    }
}

} // verus!
