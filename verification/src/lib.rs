//! A singly-linked list with insertion and removal at both ends, lookup by
//! index and forward walks, verified against the sequence of its values.

pub mod laws;
pub mod list;
pub mod list_iter;
pub mod list_node;
pub mod node_iter;

pub use list::List;
