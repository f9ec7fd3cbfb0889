use crate::laws::apply;
use crate::laws::output;
use crate::laws::yielded;
use crate::laws::Op;
use crate::list_iter::ListIterator;
use crate::list_node::Node;
use crate::node_iter::NodeIterator;
use vstd::prelude::*;

verus! {

/// A singly-linked sequence with insertion and removal at both ends.
///
/// The nodes live in an arena, a flat store addressed by slot index. `first`
/// and `last` are the slots of the two ends of the chain and each node names
/// the slot of its successor, so no node is ever reachable through a dangling
/// or shared address. A slot that a removal vacates is reused by a later
/// insertion before the arena grows.
///
/// Dropping the list drops the arena, which releases every node exactly once
/// in one pass over the slots: no call depth grows with the length of the chain.
pub struct List<T> {
    /// The arena: a slot holds a live node or is vacant.
    nodes: Vec<Option<Node<T>>>,
    /// The vacant slots.
    free: Vec<usize>,
    /// Slot of the front node, `None` when the list is empty.
    first: Option<usize>,
    /// Slot of the back node, `None` when the list is empty.
    last: Option<usize>,
    /// Number of live nodes.
    size: usize,
    /// Slots of the live nodes in head-to-tail order.
    chain: Ghost<Seq<usize>>,
}

/// The slot that follows position `i` of `chain`, if there is one.
pub open spec fn successor(chain: Seq<usize>, i: int) -> Option<usize> {
    if 0 <= i && i + 1 < chain.len() {
        Some(chain[i + 1])
    } else {
        None
    }
}

/// The slot at the front of `chain`, if there is one.
pub open spec fn front_of(chain: Seq<usize>) -> Option<usize> {
    if chain.len() == 0 {
        None
    } else {
        Some(chain[0])
    }
}

/// The slot at the back of `chain`, if there is one.
pub open spec fn back_of(chain: Seq<usize>) -> Option<usize> {
    if chain.len() == 0 {
        None
    } else {
        Some(chain[chain.len() - 1])
    }
}

impl<T> View for List<T> {
    type V = Seq<T>;

    /// The values of the list from front to back.
    closed spec fn view(&self) -> Seq<T> {
        Seq::new(self.chain@.len(), |i: int| self.nodes@[self.chain@[i] as int]->0.value)
    }
}

impl<T> List<T> {
    /// The slots of the nodes from front to back. Position `i` of this
    /// sequence is the handle of the node that holds `self@[i]`.
    pub closed spec fn handles(&self) -> Seq<usize> {
        self.chain@
    }

    /// What the slot `handle` of the arena holds.
    pub closed spec fn slot(&self, handle: usize) -> Option<Node<T>> {
        if handle < self.nodes@.len() {
            self.nodes@[handle as int]
        } else {
            None
        }
    }

    /// Every slot of the chain holds a node, no slot occurs twice, each node
    /// names the slot that follows it, and the last one names none.
    spec fn chain_wf(&self) -> bool {
        let chain = self.chain@;
        &&& forall|i: int|
            0 <= i < chain.len() ==> (#[trigger] chain[i]) < self.nodes@.len()
                && self.nodes@[chain[i] as int] is Some
        &&& forall|i: int, j: int|
            0 <= i < j < chain.len() ==> (#[trigger] chain[i]) != (#[trigger] chain[j])
        &&& forall|i: int|
            0 <= i < chain.len() ==> self.nodes@[(#[trigger] chain[i]) as int]->0.next
                == successor(chain, i)
        &&& forall|k: usize| #[trigger] self.occupied(k) ==> chain.contains(k)
    }

    /// The slot `handle` holds a node.
    spec fn occupied(&self, handle: usize) -> bool {
        handle < self.nodes@.len() && self.nodes@[handle as int] is Some
    }

    /// Every entry of the free list is a vacant slot, and none occurs twice.
    spec fn free_wf(&self) -> bool {
        let free = self.free@;
        &&& forall|j: int|
            0 <= j < free.len() ==> (#[trigger] free[j]) < self.nodes@.len()
                && self.nodes@[free[j] as int] is None
        &&& forall|i: int, j: int|
            0 <= i < j < free.len() ==> (#[trigger] free[i]) != (#[trigger] free[j])
    }

    /// The invariant of the list.
    ///
    /// The chain is acyclic and runs from `first` to `last` through exactly
    /// `size` nodes; the list is empty exactly when both ends are absent; and
    /// every slot of the arena is either in the chain or in the free list.
    pub closed spec fn wf(&self) -> bool {
        &&& self.size == self.chain@.len()
        &&& self.nodes@.len() == self.chain@.len() + self.free@.len()
        &&& self.first == front_of(self.chain@)
        &&& self.last == back_of(self.chain@)
        &&& self.chain_wf()
        &&& self.free_wf()
    }

    /// In a well-formed list there is one handle for each value, no handle
    /// occurs twice, and the slot of each handle holds the value at its
    /// position and names the handle that follows.
    pub proof fn lemma_handles(&self)
        requires
            self.wf(),
        ensures
            self.handles().len() == self@.len(),
            self@.len() <= usize::MAX,
            self.handles().no_duplicates(),
            forall|i: int|
                0 <= i < self@.len() ==> {
                    &&& self.slot(#[trigger] self.handles()[i]) is Some
                    &&& self.slot(self.handles()[i])->0.value == self@[i]
                    &&& self.slot(self.handles()[i])->0.next == successor(self.handles(), i)
                },
            forall|h: usize| self.slot(h) is Some <==> self.handles().contains(h),
    {
        assert forall|h: usize| self.slot(h) is Some <==> self.handles().contains(h) by {
            if self.slot(h) is Some {
                assert(self.occupied(h));
            }
            if self.handles().contains(h) {
                let i = choose|i: int| 0 <= i < self.chain@.len() && self.chain@[i] == h;
            }
        }
    }

    /// An empty list. Nothing is allocated.
    pub fn new() -> (list: List<T>)
        ensures
            list.wf(),
            list@ == Seq::<T>::empty(),
    {
        List {
            nodes: Vec::new(),
            free: Vec::new(),
            first: None,
            last: None,
            size: 0,
            chain: Ghost(Seq::empty()),
        }
    }

    /// Whether the list holds no value.
    pub fn is_empty(&self) -> (r: bool)
        requires
            self.wf(),
        ensures
            r == (self@.len() == 0),
    {
        self.size == 0
    }

    /// The number of values in the list.
    pub fn len(&self) -> (r: usize)
        requires
            self.wf(),
        ensures
            r == self@.len(),
    {
        self.size
    }

    /// The value at the front, `None` when the list is empty.
    pub fn front(&self) -> (r: Option<&T>)
        requires
            self.wf(),
        ensures
            r == (if self@.len() == 0 {
                None
            } else {
                Some(&self@[0])
            }),
    {
        match self.first {
            None => None,
            Some(handle) => {
                Some(&self.nodes[handle].as_ref().unwrap().value)
            },
        }
    }

    /// The value at the back, `None` when the list is empty.
    pub fn back(&self) -> (r: Option<&T>)
        requires
            self.wf(),
        ensures
            r == (if self@.len() == 0 {
                None
            } else {
                Some(&self@[self@.len() - 1])
            }),
    {
        match self.last {
            None => None,
            Some(handle) => {
                Some(&self.nodes[handle].as_ref().unwrap().value)
            },
        }
    }

    /// The handle of the front node, `None` when the list is empty.
    pub fn first_node(&self) -> (r: Option<usize>)
        requires
            self.wf(),
        ensures
            r == front_of(self.handles()),
    {
        self.first
    }

    /// The handle of the back node, `None` when the list is empty.
    pub fn last_node(&self) -> (r: Option<usize>)
        requires
            self.wf(),
        ensures
            r == back_of(self.handles()),
    {
        self.last
    }

    /// The node that `handle` names, `None` when `handle` names no node of
    /// this list.
    pub fn node(&self, handle: usize) -> (r: Option<&Node<T>>)
        requires
            self.wf(),
        ensures
            r is Some <==> self.handles().contains(handle),
            r is Some ==> self.slot(handle) == Some(*r->0),
            forall|i: int|
                0 <= i < self.handles().len() && #[trigger] self.handles()[i] == handle ==> {
                    &&& r is Some
                    &&& r->0.value == self@[i]
                    &&& r->0.next == successor(self.handles(), i)
                },
    {
        proof {
            self.lemma_handles();
        }
        if handle < self.nodes.len() {
            self.nodes[handle].as_ref()
        } else {
            None
        }
    }

    /// Puts `node` into a vacant slot, or into a new one where none is
    /// vacant, and gives the slot. The chain is left as it was.
    fn store(&mut self, node: Node<T>) -> (handle: usize)
        requires
            old(self).free_wf(),
        ensures
            final(self).first == old(self).first,
            final(self).last == old(self).last,
            final(self).size == old(self).size,
            final(self).chain == old(self).chain,
            old(self).free@.len() > 0 ==> {
                &&& handle == old(self).free@.last()
                &&& final(self).free@ == old(self).free@.drop_last()
                &&& final(self).nodes@ == old(self).nodes@.update(handle as int, Some(node))
            },
            old(self).free@.len() == 0 ==> {
                &&& handle == old(self).nodes@.len()
                &&& final(self).free@ == old(self).free@
                &&& final(self).nodes@ == old(self).nodes@.push(Some(node))
            },
            handle < final(self).nodes@.len(),
            handle < old(self).nodes@.len() ==> old(self).nodes@[handle as int] is None,
            final(self).free_wf(),
    {
        match self.free.pop() {
            Some(handle) => {
                self.nodes[handle] = Some(node);
                handle
            },
            None => {
                let handle: usize = self.nodes.len();
                self.nodes.push(Some(node));
                handle
            },
        }
    }

    /// Takes the node out of the slot `handle` and puts the slot on the free
    /// list. The chain is left as it was.
    fn release(&mut self, handle: usize) -> (node: Node<T>)
        requires
            old(self).free_wf(),
            handle < old(self).nodes@.len(),
            old(self).nodes@[handle as int] is Some,
        ensures
            final(self).first == old(self).first,
            final(self).last == old(self).last,
            final(self).size == old(self).size,
            final(self).chain == old(self).chain,
            final(self).nodes@ == old(self).nodes@.update(handle as int, None),
            final(self).free@ == old(self).free@.push(handle),
            Some(node) == old(self).nodes@[handle as int],
            final(self).free_wf(),
    {
        let node = self.nodes[handle].take().unwrap();
        self.free.push(handle);
        node
    }

    /// Makes the node in the slot `handle` name `next` as its successor.
    fn set_next(&mut self, handle: usize, next: Option<usize>)
        requires
            handle < old(self).nodes@.len(),
            old(self).nodes@[handle as int] is Some,
        ensures
            final(self).first == old(self).first,
            final(self).last == old(self).last,
            final(self).size == old(self).size,
            final(self).chain == old(self).chain,
            final(self).free == old(self).free,
            final(self).nodes@ == old(self).nodes@.update(
                handle as int,
                Some(Node { value: old(self).nodes@[handle as int]->0.value, next }),
            ),
    {
        let mut node = self.nodes[handle].take().unwrap();
        node.next = next;
        self.nodes[handle] = Some(node);
    }

    /// Adds `value` at the back, in constant time.
    pub fn push_back(&mut self, value: T)
        requires
            old(self).wf(),
        ensures
            final(self).wf(),
            final(self)@ == old(self)@.push(value),
            final(self)@ == apply(old(self)@, Op::PushBack(value)),
            final(self).handles().len() == old(self).handles().len() + 1,
            final(self).handles().drop_last() == old(self).handles(),
    {
        let handle = self.store(Node::new(value));
        match self.last {
            None => {
                self.first = Some(handle);
            },
            Some(last) => {
                self.set_next(last, Some(handle));
            },
        }
        self.last = Some(handle);
        assert(self.size < self.nodes.len());
        self.size = self.size + 1;
        self.chain = Ghost(self.chain@.push(handle));
        proof {
            let chain = self.chain@;
            let before = old(self).chain@;
            // The new node is at the back of the chain; every other node is where it was.
            assert forall|k: usize| #[trigger] self.occupied(k) implies chain.contains(k) by {
                if k == handle {
                    assert(chain[chain.len() - 1] == handle);
                } else {
                    assert(old(self).occupied(k));
                    let i = choose|i: int| 0 <= i < before.len() && before[i] == k;
                    assert(chain[i] == k);
                }
            }
        }
    }

    /// Adds `value` at the front, in constant time.
    pub fn push_front(&mut self, value: T)
        requires
            old(self).wf(),
        ensures
            final(self).wf(),
            final(self)@ == seq![value] + old(self)@,
            final(self)@ == apply(old(self)@, Op::PushFront(value)),
            final(self).handles().len() == old(self).handles().len() + 1,
            final(self).handles().drop_first() == old(self).handles(),
    {
        let mut node = Node::new(value);
        node.next = self.first;
        let handle = self.store(node);
        if self.first.is_none() {
            self.last = Some(handle);
        }
        self.first = Some(handle);
        assert(self.size < self.nodes.len());
        self.size = self.size + 1;
        self.chain = Ghost(seq![handle] + self.chain@);
        proof {
            let chain = self.chain@;
            let before = old(self).chain@;
            // The new node is at the front of the chain; every other node is one
            // position further back.
            assert forall|k: usize| #[trigger] self.occupied(k) implies chain.contains(k) by {
                if k == handle {
                    assert(chain[0] == handle);
                } else {
                    assert(old(self).occupied(k));
                    let i = choose|i: int| 0 <= i < before.len() && before[i] == k;
                    assert(chain[i + 1] == k);
                }
            }
        }
    }

    /// Removes the front node and gives its value, in constant time; `None`
    /// when the list is empty.
    pub fn pop_front(&mut self) -> (r: Option<T>)
        requires
            old(self).wf(),
        ensures
            final(self).wf(),
            old(self)@.len() == 0 ==> {
                &&& r is None
                &&& final(self)@ == old(self)@
                &&& final(self).handles() == old(self).handles()
            },
            old(self)@.len() > 0 ==> {
                &&& r == Some(old(self)@[0])
                &&& final(self)@ == old(self)@.drop_first()
                &&& final(self).handles() == old(self).handles().drop_first()
            },
            r == output(old(self)@, Op::PopFront),
            final(self)@ == apply(old(self)@, Op::PopFront),
    {
        if self.is_empty() {
            return None;
        }
        let handle = self.first.unwrap();
        let node = self.release(handle);
        self.first = node.next;
        self.size = self.size - 1;
        if self.size == 0 {
            self.last = None;
        }
        self.chain = Ghost(self.chain@.drop_first());
        proof {
            let chain = self.chain@;
            let before = old(self).chain@;
            // Every node that stays is one position further to the front.
            assert forall|k: usize| #[trigger] self.occupied(k) implies chain.contains(k) by {
                assert(old(self).occupied(k));
                let i = choose|i: int| 0 <= i < before.len() && before[i] == k;
                assert(chain[i - 1] == k);
            }
        }
        Some(node.value)
    }

    /// A walk over the values, front to back, that has given nothing yet.
    pub fn iter(&self) -> (it: ListIterator<'_, T>)
        requires
            self.wf(),
        ensures
            it.wf(),
            it.source() == self@,
            it.position() == 0,
    {
        ListIterator::new(self)
    }

    /// The value at position `index`, counted from the front, which is
    /// position 0; `None` when there is no such position. Takes time linear
    /// in `index`.
    pub fn get(&self, index: usize) -> (r: Option<&T>)
        requires
            self.wf(),
        ensures
            r == (if index < self@.len() {
                Some(&self@[index as int])
            } else {
                None
            }),
            yielded(self@, index as nat) == (match r {
                Some(value) => Some(*value),
                None => None,
            }),
    {
        if index >= self.len() {
            return None;
        }
        let mut it = self.iter();
        let mut value: Option<&T> = None;
        let mut steps: usize = 0;
        while steps <= index
            invariant
                it.wf(),
                it.source() == self@,
                index < self@.len() <= usize::MAX,
                steps <= index + 1,
                it.position() == steps,
                steps > 0 ==> value == Some(&self@[steps - 1]),
            decreases index + 1 - steps,
        {
            value = it.next();
            steps = steps + 1;
        }
        value
    }

    /// The handle of the node at position `index`, counted from the front.
    /// Takes time linear in `index`.
    fn get_node(&self, index: usize) -> (handle: usize)
        requires
            self.wf(),
            index < self@.len(),
        ensures
            handle == self.handles()[index as int],
    {
        proof {
            self.lemma_handles();
        }
        let mut it = NodeIterator::new(self);
        let mut node: Option<usize> = None;
        let mut steps: usize = 0;
        while steps <= index
            invariant
                it.wf(),
                it.handles() == self.handles(),
                index < self.handles().len() <= usize::MAX,
                steps <= index + 1,
                it.position() == steps,
                steps > 0 ==> node == Some(self.handles()[steps - 1]),
            decreases index + 1 - steps,
        {
            node = it.next();
            steps = steps + 1;
        }
        node.unwrap()
    }

    /// The handle of the node before the back node, `None` when the list has
    /// fewer than two nodes. Takes time linear in the length.
    fn pre_last(&self) -> (r: Option<usize>)
        requires
            self.wf(),
        ensures
            r == (if self@.len() > 1 {
                Some(self.handles()[self@.len() - 2])
            } else {
                None
            }),
    {
        if self.size > 1 {
            Some(self.get_node(self.size - 2))
        } else {
            None
        }
    }

    /// Removes the back node and gives its value; `None` when the list is
    /// empty.
    ///
    /// The links run forward only, so the node that becomes the back node is
    /// found by a walk from the front: this takes time linear in the length,
    /// where `pop_front` takes constant time.
    pub fn pop_back(&mut self) -> (r: Option<T>)
        requires
            old(self).wf(),
        ensures
            final(self).wf(),
            old(self)@.len() == 0 ==> {
                &&& r is None
                &&& final(self)@ == old(self)@
                &&& final(self).handles() == old(self).handles()
            },
            old(self)@.len() > 0 ==> {
                &&& r == Some(old(self)@[old(self)@.len() - 1])
                &&& final(self)@ == old(self)@.drop_last()
                &&& final(self).handles() == old(self).handles().drop_last()
            },
            r == output(old(self)@, Op::PopBack),
            final(self)@ == apply(old(self)@, Op::PopBack),
    {
        if self.is_empty() {
            return None;
        }
        let handle = self.last.unwrap();
        let new_last = self.pre_last();
        let node = self.release(handle);
        self.last = new_last;
        match new_last {
            Some(last) => {
                self.set_next(last, None);
            },
            None => {},
        }
        self.size = self.size - 1;
        if self.size == 0 {
            self.first = None;
        }
        self.chain = Ghost(self.chain@.drop_last());
        proof {
            let chain = self.chain@;
            let before = old(self).chain@;
            // Every node that stays is where it was.
            assert forall|k: usize| #[trigger] self.occupied(k) implies chain.contains(k) by {
                assert(old(self).occupied(k));
                let i = choose|i: int| 0 <= i < before.len() && before[i] == k;
                assert(chain[i] == k);
            }
        }
        Some(node.value)
    }

    /// Adds the values of `values` at the back, in their order: the same as
    /// one `push_back` for each of them.
    pub fn append(&mut self, values: Vec<T>)
        requires
            old(self).wf(),
        ensures
            final(self).wf(),
            final(self)@ == old(self)@ + values@,
            final(self).handles().take(old(self).handles().len() as int) == old(self).handles(),
    {
        let ghost before = self@;
        let ghost handles = self.handles();
        proof {
            self.lemma_handles();
        }
        for value in it: values
            invariant
                self.wf(),
                self@ == before + it.seq().take(it.index() as int),
                handles.len() == before.len(),
                self.handles().take(handles.len() as int) == handles,
        {
            let ghost grown = self.handles();
            proof {
                self.lemma_handles();
            }
            self.push_back(value);
            proof {
                self.lemma_handles();
                assert(self.handles().take(handles.len() as int) =~= grown.take(
                    handles.len() as int,
                ));
            }
        }
    }

    /// Removes every node, front to back, and leaves the list empty.
    pub fn clear(&mut self)
        requires
            old(self).wf(),
        ensures
            final(self).wf(),
            final(self)@ == Seq::<T>::empty(),
            final(self).handles() == Seq::<usize>::empty(),
    {
        while !self.is_empty()
            invariant
                self.wf(),
            decreases self@.len(),
        {
            let _ = self.pop_front();
        }
    }
}

} // verus!
