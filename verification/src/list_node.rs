use std::cmp::Ordering;
use vstd::prelude::*;
use vstd::std_specs::cmp::PartialEqSpec;
use vstd::std_specs::cmp::PartialEqSpecImpl;
use vstd::std_specs::cmp::PartialOrdSpec;
use vstd::std_specs::cmp::PartialOrdSpecImpl;

verus! {

/// One cell of a chain: a value and the arena slot of the cell that follows it.
///
/// A node owns its value only. The successor is named by its slot index, so a
/// node never owns, aliases or outlives another node, and a chain of any length
/// is torn down without recursion.
#[derive(Debug, Clone)]
pub struct Node<T> {
    pub value: T,
    /// Slot of the node that follows this one; `None` for the last node of a
    /// chain and for a node that is in no chain.
    pub next: Option<usize>,
}

impl<T> Node<T> {
    /// A detached node: it holds `value` and has no successor.
    pub fn new(value: T) -> (node: Node<T>)
        ensures
            node.value == value,
            node.next is None,
    {
        Node { value, next: None }
    }
}

/// Nodes are equal when their values are; where they sit in a chain does not count.
impl<T: PartialEq> PartialEq for Node<T> {
    fn eq(&self, other: &Self) -> (r: bool) {
        self.value == other.value
    }
}

impl<T: PartialEq> PartialEqSpecImpl for Node<T> {
    open spec fn obeys_eq_spec() -> bool {
        T::obeys_eq_spec()
    }

    open spec fn eq_spec(&self, other: &Self) -> bool {
        self.value.eq_spec(&other.value)
    }
}

/// Nodes are ordered by their values. Two nodes whose values are neither less
/// nor greater than each other compare as `Equal`, so the result is never `None`.
impl<T: PartialOrd> PartialOrd for Node<T> {
    fn partial_cmp(&self, other: &Self) -> (r: Option<Ordering>) {
        if self.value < other.value {
            Some(Ordering::Less)
        } else if self.value > other.value {
            Some(Ordering::Greater)
        } else {
            Some(Ordering::Equal)
        }
    }
}

impl<T: PartialOrd> PartialOrdSpecImpl for Node<T> {
    open spec fn obeys_partial_cmp_spec() -> bool {
        T::obeys_partial_cmp_spec()
    }

    open spec fn partial_cmp_spec(&self, other: &Self) -> Option<Ordering> {
        match self.value.partial_cmp_spec(&other.value) {
            Some(Ordering::Less) => Some(Ordering::Less),
            Some(Ordering::Greater) => Some(Ordering::Greater),
            _ => Some(Ordering::Equal),
        }
    }
}

} // verus!
