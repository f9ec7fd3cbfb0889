use crate::laws::advance;
use crate::laws::yielded;
use crate::list::List;
use vstd::prelude::*;

verus! {

/// A forward walk over the nodes of a list that gives the handle of each
/// node, front to back.
///
/// The walk starts before the front node. It holds a shared borrow of the
/// list, so the list cannot change while the walk is alive.
pub struct NodeIterator<'a, T> {
    list: &'a List<T>,
    /// Handle of the node given last, `None` before the first advance.
    curr: Option<usize>,
    /// Number of handles given so far.
    idx: usize,
}

impl<'a, T> NodeIterator<'a, T> {
    /// The handles of the list that is walked, front to back.
    pub closed spec fn handles(&self) -> Seq<usize> {
        self.list.handles()
    }

    /// Number of handles given so far.
    pub closed spec fn position(&self) -> nat {
        self.idx as nat
    }

    /// The walk is over a well-formed list and its cursor is on the node it
    /// gave last.
    pub closed spec fn wf(&self) -> bool {
        &&& self.list.wf()
        &&& self.idx <= self.list.handles().len()
        &&& self.curr == (if self.idx == 0 {
            None
        } else {
            Some(self.list.handles()[self.idx - 1])
        })
    }

    /// A walk over `list` that has given nothing yet.
    pub fn new(list: &'a List<T>) -> (it: Self)
        requires
            list.wf(),
        ensures
            it.wf(),
            it.handles() == list.handles(),
            it.position() == 0,
    {
        NodeIterator { list, curr: None, idx: 0 }
    }

    /// Moves to the next node and gives its handle.
    ///
    /// Once every node was given the walk is over for good: this and every
    /// later call give `None` and change nothing.
    pub fn next(&mut self) -> (r: Option<usize>)
        requires
            old(self).wf(),
        ensures
            final(self).wf(),
            final(self).handles() == old(self).handles(),
            final(self).position() <= final(self).handles().len(),
            old(self).position() < old(self).handles().len() ==> {
                &&& r == Some(old(self).handles()[old(self).position() as int])
                &&& final(self).position() == old(self).position() + 1
            },
            old(self).position() >= old(self).handles().len() ==> {
                &&& r is None
                &&& final(self).position() == old(self).position()
            },
            final(self).position() == advance(old(self).handles().len(), old(self).position()),
            r == yielded(old(self).handles(), old(self).position()),
    {
        let list: &'a List<T> = self.list;
        proof {
            list.lemma_handles();
        }
        if list.is_empty() {
            return None;
        } else if self.curr == list.last_node() {
            return None;
        }
        self.idx = self.idx + 1;
        match self.curr {
            None => {
                self.curr = list.first_node();
            },
            Some(curr) => {
                self.curr = list.node(curr).unwrap().next;
            },
        }
        self.curr
    }
}

} // verus!
