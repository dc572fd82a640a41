use vstd::prelude::*;
use vstd::std_specs::cmp::PartialEqSpec;
use crate::model::{
    after, after_pop_head, after_pop_tail, after_push_head, after_push_tail, handed_out,
    popped_head, popped_tail, Operation,
};

verus! {

/// One element of the list together with the slots of its two neighbours.
///
/// `next` is the slot of the neighbour closer to the tail, `previous` the slot
/// of the neighbour closer to the head. Slots are handles into the list's
/// arena, so neither link decides how long a node lives.
pub struct Node<T> {
    value: T,
    next: Option<usize>,
    previous: Option<usize>,
}

impl<T> Node<T> {
    /// A node that holds `val` and has no neighbours.
    pub fn new(val: T) -> (res: Self)
        ensures
            res.spec_value() == val,
            res.spec_next() is None,
            res.spec_previous() is None,
    {
        Node { value: val, next: None, previous: None }
    }

    /// The value that the node holds.
    pub closed spec fn spec_value(&self) -> T {
        self.value
    }

    /// The slot of the neighbour closer to the tail.
    pub closed spec fn spec_next(&self) -> Option<usize> {
        self.next
    }

    /// The slot of the neighbour closer to the head.
    pub closed spec fn spec_previous(&self) -> Option<usize> {
        self.previous
    }

    /// Replaces the value and leaves both links as they are.
    pub fn set_value(&mut self, new_val: T)
        ensures
            final(self).spec_value() == new_val,
            final(self).spec_next() == old(self).spec_next(),
            final(self).spec_previous() == old(self).spec_previous(),
    {
        self.value = new_val;
    }

    /// Hands a reference to the value to `f`, without copying it.
    pub fn inspect_value<F: FnOnce(&T)>(&self, f: F)
        requires
            call_requires(f, (&self.spec_value(),)),
        ensures
            call_ensures(f, (&self.spec_value(),), ()),
    {
        f(&self.value)
    }

    /// What `f` says of the value, without copying it.
    pub fn check_value<F: FnOnce(&T) -> bool>(&self, f: F) -> (res: bool)
        requires
            call_requires(f, (&self.spec_value(),)),
        ensures
            call_ensures(f, (&self.spec_value(),), res),
    {
        f(&self.value)
    }

    /// Consumes a node that the list has already unlinked and hands out its value.
    pub fn remove(self) -> (res: T)
        ensures
            res == self.spec_value(),
    {
        self.value
    }
}

impl<T: Clone> Node<T> {
    /// A copy of the value.
    pub fn get_value(&self) -> (res: T)
        ensures
            cloned(self.spec_value(), res),
    {
        self.value.clone()
    }
}

/// A double-ended list whose nodes live in an arena of slots.
///
/// `nodes` is the arena, `free` the slots that hold no node, `head` and `tail`
/// the slots of the two end nodes and `len` the number of live nodes. The ghost
/// sequence `order` lists the live slots from front to back.
pub struct DoubleLinkList<T> {
    nodes: Vec<Option<Node<T>>>,
    free: Vec<usize>,
    head: Option<usize>,
    tail: Option<usize>,
    len: usize,
    order: Ghost<Seq<usize>>,
}

impl<T> View for DoubleLinkList<T> {
    type V = Seq<T>;

    /// The elements from front to back.
    closed spec fn view(&self) -> Seq<T> {
        Seq::new(self.order@.len(), |i: int| self.nodes@[self.order@[i] as int].unwrap().value)
    }
}

impl<T> DoubleLinkList<T> {
    /// The slot that follows position `i` of `order`, if any.
    spec fn next_of(order: Seq<usize>, i: int) -> Option<usize> {
        if i + 1 < order.len() {
            Some(order[i + 1])
        } else {
            None
        }
    }

    /// The slot that precedes position `i` of `order`, if any.
    spec fn previous_of(order: Seq<usize>, i: int) -> Option<usize> {
        if i > 0 {
            Some(order[i - 1])
        } else {
            None
        }
    }

    /// The live slot at position `i` holds a node whose links name its
    /// neighbours in `order`.
    spec fn linked_at(&self, i: int) -> bool {
        &&& self.order@[i] < self.nodes@.len()
        &&& self.nodes@[self.order@[i] as int] is Some
        &&& self.nodes@[self.order@[i] as int].unwrap().next == Self::next_of(self.order@, i)
        &&& self.nodes@[self.order@[i] as int].unwrap().previous == Self::previous_of(
            self.order@,
            i,
        )
    }

    /// Every live slot is linked to its neighbours in both directions.
    spec fn live_linked(&self) -> bool {
        forall|i: int| 0 <= i < self.order@.len() ==> #[trigger] self.linked_at(i)
    }

    /// Every slot on the free list is inside the arena and holds no node.
    spec fn free_vacant(&self) -> bool {
        forall|j: int|
            0 <= j < self.free@.len() ==> {
                &&& (#[trigger] self.free@[j]) < self.nodes@.len()
                &&& self.nodes@[self.free@[j] as int] is None
            }
    }

    /// The structural invariant of the list.
    ///
    /// The counter equals the number of live nodes; `head` and `tail` are empty
    /// exactly when the counter is zero and otherwise name the first and the
    /// last live slot; each live node is reached by exactly one forward link,
    /// and its backward link mirrors the forward link of the node before it.
    pub closed spec fn wf(&self) -> bool {
        &&& self.order@.len() == self.len
        &&& self.len + self.free@.len() == self.nodes@.len()
        &&& self.order@.no_duplicates()
        &&& self.free@.no_duplicates()
        &&& self.live_linked()
        &&& self.free_vacant()
        &&& self.head == (if self.len == 0 {
            None
        } else {
            Some(self.order@[0])
        })
        &&& self.tail == (if self.len == 0 {
            None
        } else {
            Some(self.order@[self.order@.len() - 1])
        })
    }

    /// An empty list.
    pub fn new() -> (res: Self)
        ensures
            res.wf(),
            res@ == Seq::<T>::empty(),
    {
        let res = DoubleLinkList {
            nodes: Vec::new(),
            free: Vec::new(),
            head: None,
            tail: None,
            len: 0,
            order: Ghost(Seq::empty()),
        };
        assert(res@ =~= Seq::<T>::empty());
        res
    }

    /// The slot of the front node, or `None` on an empty list.
    pub closed spec fn spec_head(&self) -> Option<usize> {
        self.head
    }

    /// The slot of the back node, or `None` on an empty list.
    pub closed spec fn spec_tail(&self) -> Option<usize> {
        self.tail
    }

    /// The slot of the front node: present exactly when the list is not empty.
    pub fn head(&self) -> (res: Option<usize>)
        requires
            self.wf(),
        ensures
            res == self.spec_head(),
            res is Some <==> self@.len() > 0,
    {
        self.head
    }

    /// The slot of the back node: present exactly when the list is not empty.
    pub fn tail(&self) -> (res: Option<usize>)
        requires
            self.wf(),
        ensures
            res == self.spec_tail(),
            res is Some <==> self@.len() > 0,
            (res is Some && res == self.spec_head()) <==> self@.len() == 1,
    {
        proof {
            if self.len > 1 {
                assert(self.order@[0] != self.order@[self.order@.len() - 1]);
            }
        }
        self.tail
    }

    /// Whether `slot` holds a node of the list.
    pub closed spec fn spec_live(&self, slot: usize) -> bool {
        exists|i: int| 0 <= i < self.order@.len() && self.order@[i] == slot
    }

    /// The forward link of the node in `slot`.
    pub closed spec fn spec_next(&self, slot: usize) -> Option<usize> {
        self.nodes@[slot as int].unwrap().next
    }

    /// The backward link of the node in `slot`.
    pub closed spec fn spec_previous(&self, slot: usize) -> Option<usize> {
        self.nodes@[slot as int].unwrap().previous
    }

    /// The two ends are empty exactly when the list is, and they name one and
    /// the same node exactly when the list holds one element. The node at the
    /// head has no backward link and the node at the tail no forward link.
    pub proof fn lemma_ends(&self)
        requires
            self.wf(),
        ensures
            self.spec_head() is None <==> self@.len() == 0,
            self.spec_tail() is None <==> self@.len() == 0,
            (self.spec_head() is Some && self.spec_head() == self.spec_tail()) <==> self@.len()
                == 1,
            self.spec_head() is Some ==> self.spec_live(self.spec_head().unwrap())
                && self.spec_previous(self.spec_head().unwrap()) is None,
            self.spec_tail() is Some ==> self.spec_live(self.spec_tail().unwrap())
                && self.spec_next(self.spec_tail().unwrap()) is None,
    {
        if self.len > 0 {
            let last = self.order@.len() - 1;
            assert(self.linked_at(0));
            assert(self.linked_at(last));
            assert(self.order@[0] == self.spec_head().unwrap());
            assert(self.order@[last] == self.spec_tail().unwrap());
            if self.len > 1 {
                assert(self.order@[0] != self.order@[last]);
            }
        }
    }

    /// The links mirror each other: where the forward link of a node of the
    /// list names a slot, that slot holds a node of the list whose backward
    /// link names the first node, and the other way round.
    pub proof fn lemma_links_mirror(&self, slot: usize)
        requires
            self.wf(),
            self.spec_live(slot),
        ensures
            self.spec_next(slot) matches Some(after) ==> self.spec_live(after)
                && self.spec_previous(after) == Some(slot),
            self.spec_previous(slot) matches Some(before) ==> self.spec_live(before)
                && self.spec_next(before) == Some(slot),
    {
        let i = choose|i: int| 0 <= i < self.order@.len() && self.order@[i] == slot;
        assert(self.linked_at(i));
        if i + 1 < self.order@.len() {
            assert(self.linked_at(i + 1));
            assert(self.spec_live(self.order@[i + 1]));
        }
        if i > 0 {
            assert(self.linked_at(i - 1));
            assert(self.spec_live(self.order@[i - 1]));
        }
    }

    /// The number of elements.
    pub fn len(&self) -> (res: usize)
        requires
            self.wf(),
        ensures
            res == self@.len(),
    {
        self.len
    }

    /// Whether the list holds no element.
    pub fn is_empty(&self) -> (res: bool)
        requires
            self.wf(),
        ensures
            res == (self@.len() == 0),
    {
        self.len() == 0
    }

    /// Puts `node` into a vacant slot of the arena and returns that slot.
    fn claim_slot(&mut self, node: Node<T>) -> (idx: usize)
        requires
            old(self).len + old(self).free@.len() == old(self).nodes@.len(),
            old(self).free@.no_duplicates(),
            old(self).free_vacant(),
        ensures
            idx < final(self).nodes@.len(),
            final(self).nodes@[idx as int] == Some(node),
            final(self).nodes@.len() >= old(self).nodes@.len(),
            forall|k: int|
                0 <= k < old(self).nodes@.len() && k != idx ==> final(self).nodes@[k] == old(
                    self,
                ).nodes@[k],
            idx >= old(self).nodes@.len() || old(self).nodes@[idx as int] is None,
            final(self).len == old(self).len,
            final(self).len < usize::MAX,
            final(self).len + final(self).free@.len() + 1 == final(self).nodes@.len(),
            final(self).free@.no_duplicates(),
            final(self).free_vacant(),
            final(self).head == old(self).head,
            final(self).tail == old(self).tail,
            final(self).order == old(self).order,
    {
        match self.free.pop() {
            Some(idx) => {
                proof {
                    let old_free = old(self).free@;
                    assert(old_free[old_free.len() - 1] == idx);
                    assert(forall|j: int|
                        0 <= j < self.free@.len() ==> self.free@[j] == old_free[j]);
                }
                let slots = self.nodes.len();
                self.nodes[idx] = Some(node);
                idx
            },
            None => {
                self.nodes.push(Some(node));
                self.nodes.len() - 1
            },
        }
    }

    /// Points the forward link of the node in `slot` at `link`.
    fn set_next(&mut self, slot: usize, link: Option<usize>)
        requires
            slot < old(self).nodes@.len(),
            old(self).nodes@[slot as int] is Some,
        ensures
            final(self).nodes@.len() == old(self).nodes@.len(),
            final(self).nodes@[slot as int] is Some,
            final(self).nodes@[slot as int].unwrap().value == old(self).nodes@[slot as int].unwrap().value,
            final(self).nodes@[slot as int].unwrap().previous == old(self).nodes@[slot as int].unwrap().previous,
            final(self).nodes@[slot as int].unwrap().next == link,
            forall|k: int|
                0 <= k < old(self).nodes@.len() && k != slot ==> final(self).nodes@[k] == old(
                    self,
                ).nodes@[k],
            final(self).free == old(self).free,
            final(self).head == old(self).head,
            final(self).tail == old(self).tail,
            final(self).len == old(self).len,
            final(self).order == old(self).order,
    {
        match &mut self.nodes[slot] {
            Some(node) => {
                node.next = link;
            },
            None => {},
        }
    }

    /// Points the backward link of the node in `slot` at `link`.
    fn set_previous(&mut self, slot: usize, link: Option<usize>)
        requires
            slot < old(self).nodes@.len(),
            old(self).nodes@[slot as int] is Some,
        ensures
            final(self).nodes@.len() == old(self).nodes@.len(),
            final(self).nodes@[slot as int] is Some,
            final(self).nodes@[slot as int].unwrap().value == old(self).nodes@[slot as int].unwrap().value,
            final(self).nodes@[slot as int].unwrap().next == old(self).nodes@[slot as int].unwrap().next,
            final(self).nodes@[slot as int].unwrap().previous == link,
            forall|k: int|
                0 <= k < old(self).nodes@.len() && k != slot ==> final(self).nodes@[k] == old(
                    self,
                ).nodes@[k],
            final(self).free == old(self).free,
            final(self).head == old(self).head,
            final(self).tail == old(self).tail,
            final(self).len == old(self).len,
            final(self).order == old(self).order,
    {
        match &mut self.nodes[slot] {
            Some(node) => {
                node.previous = link;
            },
            None => {},
        }
    }

    /// A slot that holds no node is not among the live slots.
    proof fn lemma_vacant_not_live(&self, slot: usize)
        requires
            self.live_linked(),
            slot >= self.nodes@.len() || self.nodes@[slot as int] is None,
        ensures
            forall|i: int| 0 <= i < self.order@.len() ==> self.order@[i] != slot,
    {
        assert forall|i: int| 0 <= i < self.order@.len() implies self.order@[i] != slot by {
            assert(self.linked_at(i));
        }
    }

    /// Adds `new_val` as the new last element.
    pub fn push_tail(&mut self, new_val: T)
        requires
            old(self).wf(),
        ensures
            final(self).wf(),
            final(self)@ == after_push_tail(old(self)@, new_val),
    {
        let prev_tail = self.tail;
        let mut new_node = Node::new(new_val);
        new_node.previous = prev_tail;
        let idx = self.claim_slot(new_node);
        proof {
            old(self).lemma_vacant_not_live(idx);
        }
        let ghost mid = *self;
        match prev_tail {
            Some(t) => {
                proof {
                    assert(old(self).linked_at(old(self).order@.len() - 1));
                }
                self.set_next(t, Some(idx));
            },
            None => {
                self.head = Some(idx);
            },
        }
        self.tail = Some(idx);
        self.len = self.len + 1;
        proof {
            self.order@ = self.order@.push(idx);
            let order = self.order@;
            let before = old(self).order@;
            assert forall|i: int| 0 <= i < order.len() implies #[trigger] self.linked_at(i) by {
                if i < before.len() {
                    assert(old(self).linked_at(i));
                    assert(order[i] == before[i]);
                    assert(order[i] != idx);
                    if i + 1 < before.len() {
                        assert(order[i + 1] == before[i + 1]);
                        assert(before[i] != before[before.len() - 1]);
                        assert(self.nodes@[order[i] as int] == old(self).nodes@[before[i] as int]);
                    }
                }
            }
            assert forall|j: int| 0 <= j < self.free@.len() implies {
                &&& (#[trigger] self.free@[j]) < self.nodes@.len()
                &&& self.nodes@[self.free@[j] as int] is None
            } by {
                assert(mid.nodes@[mid.free@[j] as int] is None);
            }
            assert(order.no_duplicates());
            assert forall|i: int| 0 <= i < order.len() implies #[trigger] self@[i] == old(
                self,
            )@.push(new_val)[i] by {
                if i < before.len() {
                    assert(old(self).linked_at(i));
                    assert(order[i] == before[i]);
                }
            }
            assert(self@ =~= old(self)@.push(new_val));
        }
    }

    /// Adds `new_val` as the new first element.
    pub fn push_head(&mut self, new_val: T)
        requires
            old(self).wf(),
        ensures
            final(self).wf(),
            final(self)@ == after_push_head(old(self)@, new_val),
    {
        let prev_head = self.head;
        let mut new_node = Node::new(new_val);
        new_node.next = prev_head;
        let idx = self.claim_slot(new_node);
        proof {
            old(self).lemma_vacant_not_live(idx);
        }
        let ghost mid = *self;
        match prev_head {
            Some(h) => {
                proof {
                    assert(old(self).linked_at(0));
                }
                self.set_previous(h, Some(idx));
            },
            None => {
                self.tail = Some(idx);
            },
        }
        self.head = Some(idx);
        self.len = self.len + 1;
        proof {
            self.order@ = seq![idx] + self.order@;
            let order = self.order@;
            let before = old(self).order@;
            assert forall|i: int| 0 <= i < order.len() implies #[trigger] self.linked_at(i) by {
                if i > 0 {
                    assert(old(self).linked_at(i - 1));
                    assert(order[i] == before[i - 1]);
                    assert(order[i] != idx);
                    if i + 1 < order.len() {
                        assert(order[i + 1] == before[i]);
                    }
                    if i > 1 {
                        assert(order[i - 1] == before[i - 2]);
                        assert(before[i - 1] != before[0]);
                        assert(self.nodes@[order[i] as int] == old(self).nodes@[before[i - 1] as int]);
                    }
                } else {
                    if before.len() > 0 {
                        assert(order[1] == before[0]);
                    }
                }
            }
            assert forall|j: int| 0 <= j < self.free@.len() implies {
                &&& (#[trigger] self.free@[j]) < self.nodes@.len()
                &&& self.nodes@[self.free@[j] as int] is None
            } by {
                assert(mid.nodes@[mid.free@[j] as int] is None);
            }
            assert forall|i: int, j: int|
                0 <= i < order.len() && 0 <= j < order.len() && i != j implies order[i]
                != order[j] by {
                if i > 0 {
                    assert(order[i] == before[i - 1]);
                }
                if j > 0 {
                    assert(order[j] == before[j - 1]);
                }
            }
            assert forall|i: int| 0 <= i < order.len() implies #[trigger] self@[i] == (seq![
                new_val,
            ] + old(self)@)[i] by {
                if i > 0 {
                    assert(old(self).linked_at(i - 1));
                    assert(order[i] == before[i - 1]);
                }
            }
            assert(self@ =~= seq![new_val] + old(self)@);
        }
    }

    /// Takes the node out of `slot` and puts the slot on the free list.
    fn release_slot(&mut self, slot: usize) -> (node: Node<T>)
        requires
            slot < old(self).nodes@.len(),
            old(self).nodes@[slot as int] is Some,
            old(self).len > 0,
            old(self).len + old(self).free@.len() == old(self).nodes@.len(),
            old(self).free@.no_duplicates(),
            old(self).free_vacant(),
        ensures
            node == old(self).nodes@[slot as int].unwrap(),
            final(self).nodes@ == old(self).nodes@.update(slot as int, None),
            final(self).len == old(self).len,
            final(self).len + final(self).free@.len() == final(self).nodes@.len() + 1,
            final(self).free@.no_duplicates(),
            final(self).free_vacant(),
            final(self).head == old(self).head,
            final(self).tail == old(self).tail,
            final(self).order == old(self).order,
    {
        let taken = self.nodes[slot].take();
        self.free.push(slot);
        proof {
            let free = self.free@;
            let before = old(self).free@;
            assert forall|i: int, j: int|
                0 <= i < free.len() && 0 <= j < free.len() && i != j implies free[i]
                != free[j] by {
                if i < before.len() {
                    assert(free[i] == before[i]);
                }
                if j < before.len() {
                    assert(free[j] == before[j]);
                }
            }
        }
        taken.unwrap()
    }

    /// Removes the first element and returns it, or `None` on an empty list.
    pub fn pop_head(&mut self) -> (res: Option<T>)
        requires
            old(self).wf(),
        ensures
            final(self).wf(),
            res == popped_head(old(self)@),
            final(self)@ == after_pop_head(old(self)@),
    {
        match self.head {
            None => None,
            Some(h) => {
                proof {
                    assert(old(self).linked_at(0));
                    if old(self).order@.len() > 1 {
                        assert(old(self).linked_at(1));
                    }
                }
                let node = self.release_slot(h);
                let ghost mid = *self;
                match node.next {
                    Some(n) => {
                        self.set_previous(n, None);
                    },
                    None => {
                        self.tail = None;
                    },
                }
                self.head = node.next;
                self.len = self.len - 1;
                proof {
                    self.order@ = self.order@.drop_first();
                    let order = self.order@;
                    let before = old(self).order@;
                    assert forall|i: int| 0 <= i < order.len() implies #[trigger] self.linked_at(
                        i,
                    ) by {
                        assert(old(self).linked_at(i + 1));
                        assert(order[i] == before[i + 1]);
                        assert(before[i + 1] != before[0]);
                        if i + 1 < order.len() {
                            assert(order[i + 1] == before[i + 2]);
                        }
                        if i > 0 {
                            assert(order[i - 1] == before[i]);
                            assert(before[i + 1] != before[1]);
                            assert(self.nodes@[order[i] as int] == old(self).nodes@[before[i
                                + 1] as int]);
                        }
                    }
                    assert forall|j: int| 0 <= j < self.free@.len() implies {
                        &&& (#[trigger] self.free@[j]) < self.nodes@.len()
                        &&& self.nodes@[self.free@[j] as int] is None
                    } by {
                        assert(mid.nodes@[mid.free@[j] as int] is None);
                    }
                    assert forall|i: int, j: int|
                        0 <= i < order.len() && 0 <= j < order.len() && i != j implies order[i]
                        != order[j] by {
                        assert(order[i] == before[i + 1]);
                        assert(order[j] == before[j + 1]);
                    }
                    assert forall|i: int| 0 <= i < order.len() implies #[trigger] self@[i] == old(
                        self,
                    )@.drop_first()[i] by {
                        assert(old(self).linked_at(i + 1));
                        assert(order[i] == before[i + 1]);
                        assert(before[i + 1] != before[0]);
                    }
                    assert(self@ =~= old(self)@.drop_first());
                }
                Some(node.remove())
            },
        }
    }

    /// Removes the last element and returns it, or `None` on an empty list.
    pub fn pop_tail(&mut self) -> (res: Option<T>)
        requires
            old(self).wf(),
        ensures
            final(self).wf(),
            res == popped_tail(old(self)@),
            final(self)@ == after_pop_tail(old(self)@),
    {
        match self.tail {
            None => None,
            Some(t) => {
                proof {
                    assert(old(self).linked_at(old(self).order@.len() - 1));
                    if old(self).order@.len() > 1 {
                        assert(old(self).linked_at(old(self).order@.len() - 2));
                    }
                }
                let node = self.release_slot(t);
                let ghost mid = *self;
                match node.previous {
                    Some(p) => {
                        self.set_next(p, None);
                    },
                    None => {
                        self.head = None;
                    },
                }
                self.tail = node.previous;
                self.len = self.len - 1;
                proof {
                    self.order@ = self.order@.drop_last();
                    let order = self.order@;
                    let before = old(self).order@;
                    let last = before.len() - 1;
                    assert forall|i: int| 0 <= i < order.len() implies #[trigger] self.linked_at(
                        i,
                    ) by {
                        assert(old(self).linked_at(i));
                        assert(order[i] == before[i]);
                        assert(before[i] != before[last]);
                        if i > 0 {
                            assert(order[i - 1] == before[i - 1]);
                        }
                        if i + 1 < order.len() {
                            assert(order[i + 1] == before[i + 1]);
                            assert(before[i] != before[last - 1]);
                            assert(self.nodes@[order[i] as int] == old(self).nodes@[before[i] as int]);
                        }
                    }
                    assert forall|j: int| 0 <= j < self.free@.len() implies {
                        &&& (#[trigger] self.free@[j]) < self.nodes@.len()
                        &&& self.nodes@[self.free@[j] as int] is None
                    } by {
                        assert(mid.nodes@[mid.free@[j] as int] is None);
                    }
                    assert forall|i: int| 0 <= i < order.len() implies #[trigger] self@[i] == old(
                        self,
                    )@.drop_last()[i] by {
                        assert(old(self).linked_at(i));
                        assert(order[i] == before[i]);
                        assert(before[i] != before[last]);
                    }
                    assert(self@ =~= old(self)@.drop_last());
                }
                Some(node.remove())
            },
        }
    }

    /// The node in the live slot at position `i` of the list.
    fn node_at(&self, slot: usize, Ghost(i): Ghost<int>) -> (node: &Node<T>)
        requires
            self.wf(),
            0 <= i < self@.len(),
            self.order@[i] == slot,
        ensures
            node.spec_value() == self@[i],
            node.spec_next() == Self::next_of(self.order@, i),
            node.spec_previous() == Self::previous_of(self.order@, i),
    {
        proof {
            assert(self.linked_at(i));
        }
        self.nodes[slot].as_ref().unwrap()
    }

    /// Hands a reference to the first element to `f`; does nothing on an empty list.
    pub fn head_inspect<F: FnOnce(&T)>(&self, f: F)
        requires
            self.wf(),
            self@.len() > 0 ==> call_requires(f, (&self@[0],)),
        ensures
            self@.len() > 0 ==> call_ensures(f, (&self@[0],), ()),
    {
        if let Some(h) = self.head {
            let node = self.node_at(h, Ghost(0));
            node.inspect_value(f)
        }
    }

    /// What `f` says of the first element; `false` on an empty list.
    pub fn head_check<F: FnOnce(&T) -> bool>(&self, f: F) -> (res: bool)
        requires
            self.wf(),
            self@.len() > 0 ==> call_requires(f, (&self@[0],)),
        ensures
            self@.len() == 0 ==> !res,
            self@.len() > 0 ==> call_ensures(f, (&self@[0],), res),
    {
        if let Some(h) = self.head {
            let node = self.node_at(h, Ghost(0));
            return node.check_value(f);
        }
        false
    }

    /// Hands a reference to the last element to `f`; does nothing on an empty list.
    pub fn tail_inspect<F: FnOnce(&T)>(&self, f: F)
        requires
            self.wf(),
            self@.len() > 0 ==> call_requires(f, (&self@.last(),)),
        ensures
            self@.len() > 0 ==> call_ensures(f, (&self@.last(),), ()),
    {
        if let Some(t) = self.tail {
            let node = self.node_at(t, Ghost(self@.len() - 1));
            node.inspect_value(f)
        }
    }

    /// What `f` says of the last element; `false` on an empty list.
    pub fn tail_check<F: FnOnce(&T) -> bool>(&self, f: F) -> (res: bool)
        requires
            self.wf(),
            self@.len() > 0 ==> call_requires(f, (&self@.last(),)),
        ensures
            self@.len() == 0 ==> !res,
            self@.len() > 0 ==> call_ensures(f, (&self@.last(),), res),
    {
        if let Some(t) = self.tail {
            let node = self.node_at(t, Ghost(self@.len() - 1));
            return node.check_value(f);
        }
        false
    }

    /// Carries out one operation and returns what it hands out.
    pub fn apply(&mut self, op: Operation<T>) -> (res: Option<T>)
        requires
            old(self).wf(),
        ensures
            final(self).wf(),
            res == handed_out(old(self)@, op),
            final(self)@ == after(old(self)@, op),
    {
        match op {
            Operation::PushHead(value) => {
                self.push_head(value);
                None
            },
            Operation::PushTail(value) => {
                self.push_tail(value);
                None
            },
            Operation::PopHead => self.pop_head(),
            Operation::PopTail => self.pop_tail(),
        }
    }

    /// Removes every element, front first, and leaves the list empty.
    pub fn drain(&mut self)
        requires
            old(self).wf(),
        ensures
            final(self).wf(),
            final(self)@ == Seq::<T>::empty(),
    {
        while !self.is_empty()
            invariant
                self.wf(),
            decreases self@.len(),
        {
            let _ = self.pop_head();
        }
        assert(self@ =~= Seq::<T>::empty());
    }
}

impl<T: Clone> DoubleLinkList<T> {
    /// A clone of the first element, or `None` on an empty list.
    pub fn get_head(&self) -> (res: Option<T>)
        requires
            self.wf(),
        ensures
            res is Some <==> self@.len() > 0,
            res is Some ==> cloned(self@[0], res.unwrap()),
    {
        if let Some(h) = self.head {
            let node = self.node_at(h, Ghost(0));
            return Some(node.get_value());
        }
        None
    }

    /// A clone of the last element, or `None` on an empty list.
    pub fn get_tail(&self) -> (res: Option<T>)
        requires
            self.wf(),
        ensures
            res is Some <==> self@.len() > 0,
            res is Some ==> cloned(self@.last(), res.unwrap()),
    {
        if let Some(t) = self.tail {
            let node = self.node_at(t, Ghost(self@.len() - 1));
            return Some(node.get_value());
        }
        None
    }
}

impl<T: PartialEq> DoubleLinkList<T> {
    /// Whether some element equals `item`, found by walking the forward links
    /// from the head.
    pub fn contains(&self, item: &T) -> (res: bool)
        requires
            self.wf(),
        ensures
            T::obeys_eq_spec() ==> res == exists|i: int|
                0 <= i < self@.len() && #[trigger] self@[i].eq_spec(item),
    {
        let mut cursor = self.head;
        let ghost mut pos: int = 0;
        while cursor.is_some()
            invariant
                self.wf(),
                0 <= pos <= self@.len(),
                cursor == Self::next_of(self.order@, pos - 1),
                T::obeys_eq_spec() ==> forall|k: int|
                    0 <= k < pos ==> !(#[trigger] self@[k]).eq_spec(item),
            decreases self@.len() - pos,
        {
            let slot = cursor.unwrap();
            let node = self.node_at(slot, Ghost(pos));
            if node.value == *item {
                return true;
            }
            cursor = node.next;
            proof {
                pos = pos + 1;
            }
        }
        false
    }
}

} // verus!
