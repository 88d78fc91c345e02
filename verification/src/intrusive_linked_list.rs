//! A doubly linked list whose nodes live in a slot arena.
//!
//! Inserting a node hands back a [`NodeHandle`] that stays valid until that
//! node is removed, so any node can be unlinked in constant time.  Slots freed
//! by removals are reused by later insertions.
use vstd::prelude::*;

verus! {

/// A list node: the payload and the slots of its neighbours.
pub struct Node<T> {
    data: T,
    next: Option<usize>,
    prev: Option<usize>,
}

impl<T> Node<T> {
    /// The payload the node carries.
    pub closed spec fn payload(&self) -> T {
        self.data
    }

    /// The neighbour slots the node links to (successor, predecessor).
    pub closed spec fn links(&self) -> (Option<usize>, Option<usize>) {
        (self.next, self.prev)
    }

    /// Whether the node is not linked to any neighbour.
    pub closed spec fn detached(&self) -> bool {
        self.next is None && self.prev is None
    }

    /// A fresh, unlinked node carrying `data`.
    pub fn new_boxed(data: T) -> (node: Box<Self>)
        ensures
            node.payload() == data,
            node.detached(),
    {
        Box::new(Node { data, next: None, prev: None })
    }

    /// The payload.
    pub fn data(&self) -> (d: &T)
        ensures
            *d == self.payload(),
    {
        &self.data
    }

    /// The payload, for modification.
    pub fn data_mut(&mut self) -> (d: &mut T)
        ensures
            *d == old(self).payload(),
            final(self).payload() == *final(d),
            final(self).links() == old(self).links(),
    {
        &mut self.data
    }

    /// The payload, the node given up.
    pub fn into_data(self) -> (d: T)
        ensures
            d == self.payload(),
    {
        self.data
    }
}

/// Names a node of an [`IntrusiveLinkedList`] while it is in the list.
#[derive(Clone, Copy, Debug, PartialEq, Eq, Structural)]
pub struct NodeHandle {
    slot: usize,
}

impl NodeHandle {
    /// The arena slot the handle refers to.
    pub closed spec fn slot_index(&self) -> usize {
        self.slot
    }
}

/// The successor slot of position `i` in the slot order `order`.
spec fn next_slot(order: Seq<usize>, i: int) -> Option<usize> {
    if i + 1 < order.len() {
        Some(order[i + 1])
    } else {
        None
    }
}

/// The predecessor slot of position `i` in the slot order `order`.
spec fn prev_slot(order: Seq<usize>, i: int) -> Option<usize> {
    if i > 0 {
        Some(order[i - 1])
    } else {
        None
    }
}

/// Slot `t` exists and holds a node.
spec fn occupied<T>(slots: Seq<Option<Node<T>>>, t: usize) -> bool {
    &&& t < slots.len()
    &&& slots[t as int] is Some
}

/// Slot `t` exists and holds no node.
spec fn vacant<T>(slots: Seq<Option<Node<T>>>, t: usize) -> bool {
    &&& t < slots.len()
    &&& slots[t as int] is None
}

/// The node held in slot `t`.
spec fn node_of<T>(slots: Seq<Option<Node<T>>>, t: usize) -> Node<T> {
    slots[t as int]->Some_0
}

/// No slot index occurs twice in `s`.
spec fn distinct(s: Seq<usize>) -> bool {
    forall|i: int, j: int|
        0 <= i < s.len() && 0 <= j < s.len() && i != j ==> #[trigger] s[i] != #[trigger] s[j]
}

/// Position `i` of `order` names an occupied slot whose links point at the
/// neighbouring positions.
spec fn linked_at<T>(slots: Seq<Option<Node<T>>>, order: Seq<usize>, i: int) -> bool {
    &&& occupied(slots, order[i])
    &&& node_of(slots, order[i]).next == next_slot(order, i)
    &&& node_of(slots, order[i]).prev == prev_slot(order, i)
}

/// `order` lists distinct occupied slots, each linked to its neighbours.
spec fn links_ok<T>(slots: Seq<Option<Node<T>>>, order: Seq<usize>) -> bool {
    &&& distinct(order)
    &&& forall|i: int| 0 <= i < order.len() ==> #[trigger] linked_at(slots, order, i)
}

/// `free` lists distinct vacant slots.
spec fn free_ok<T>(slots: Seq<Option<Node<T>>>, free: Seq<usize>) -> bool {
    &&& distinct(free)
    &&& forall|k: int| 0 <= k < free.len() ==> #[trigger] vacant(slots, free[k])
}

/// The payloads of the nodes in the slots of `order`, in that order.
spec fn payloads<T>(slots: Seq<Option<Node<T>>>, order: Seq<usize>) -> Seq<T> {
    Seq::new(order.len(), |i: int| node_of(slots, order[i]).data)
}

/// The handles naming the slots of `order`, in that order.
spec fn handles_of(order: Seq<usize>) -> Seq<NodeHandle> {
    Seq::new(order.len(), |i: int| NodeHandle { slot: order[i] })
}

proof fn lemma_vacant_not_listed<T>(slots: Seq<Option<Node<T>>>, order: Seq<usize>, t: usize)
    requires
        links_ok(slots, order),
        vacant(slots, t),
    ensures
        forall|i: int| 0 <= i < order.len() ==> order[i] != t,
{
    assert forall|i: int| 0 <= i < order.len() implies order[i] != t by {
        assert(linked_at(slots, order, i));
    }
}

proof fn lemma_links_frame<T>(
    s1: Seq<Option<Node<T>>>,
    s2: Seq<Option<Node<T>>>,
    order: Seq<usize>,
)
    requires
        links_ok(s1, order),
        forall|t: usize| #[trigger] occupied(s1, t) ==> t < s2.len() && s2[t as int] == s1[t as int],
    ensures
        links_ok(s2, order),
        payloads(s2, order) == payloads(s1, order),
{
    assert forall|i: int| 0 <= i < order.len() implies #[trigger] linked_at(s2, order, i) by {
        assert(linked_at(s1, order, i));
        assert(occupied(s1, order[i]));
    }
    assert forall|i: int| 0 <= i < order.len() implies payloads(s2, order)[i] == payloads(
        s1,
        order,
    )[i] by {
        assert(linked_at(s1, order, i));
        assert(occupied(s1, order[i]));
    }
    assert(payloads(s2, order) =~= payloads(s1, order));
}

proof fn lemma_free_frame<T>(
    s1: Seq<Option<Node<T>>>,
    s2: Seq<Option<Node<T>>>,
    free: Seq<usize>,
    x: usize,
)
    requires
        free_ok(s1, free),
        forall|k: int| 0 <= k < free.len() ==> free[k] != x,
        forall|t: usize| #[trigger] vacant(s1, t) && t != x ==> vacant(s2, t),
    ensures
        free_ok(s2, free),
{
    assert forall|k: int| 0 <= k < free.len() implies #[trigger] vacant(s2, free[k]) by {
        assert(vacant(s1, free[k]));
    }
}

proof fn lemma_free_pop<T>(slots: Seq<Option<Node<T>>>, free: Seq<usize>)
    requires
        free_ok(slots, free),
        free.len() > 0,
    ensures
        free_ok(slots, free.drop_last()),
        vacant(slots, free.last()),
        forall|k: int| 0 <= k < free.drop_last().len() ==> free.drop_last()[k] != free.last(),
{
    let d = free.drop_last();
    assert(vacant(slots, free[free.len() - 1]));
    assert forall|k: int| 0 <= k < d.len() implies #[trigger] vacant(slots, d[k]) by {
        assert(d[k] == free[k]);
        assert(vacant(slots, free[k]));
    }
    assert forall|k: int, l: int| 0 <= k < d.len() && 0 <= l < d.len() && k != l implies #[trigger] d[k]
        != #[trigger] d[l] by {
        assert(d[k] == free[k]);
        assert(d[l] == free[l]);
    }
    assert forall|k: int| 0 <= k < d.len() implies d[k] != free.last() by {
        assert(d[k] == free[k]);
        assert(free[k] != free[free.len() - 1]);
    }
}

proof fn lemma_free_push<T>(slots: Seq<Option<Node<T>>>, free: Seq<usize>, t: usize)
    requires
        free_ok(slots, free),
        vacant(slots, t),
        forall|k: int| 0 <= k < free.len() ==> free[k] != t,
    ensures
        free_ok(slots, free.push(t)),
{
    let p = free.push(t);
    assert forall|k: int| 0 <= k < p.len() implies #[trigger] vacant(slots, p[k]) by {
        if k < free.len() {
            assert(p[k] == free[k]);
            assert(vacant(slots, free[k]));
        }
    }
    assert forall|k: int, l: int| 0 <= k < p.len() && 0 <= l < p.len() && k != l implies #[trigger] p[k]
        != #[trigger] p[l] by {
        if k < free.len() && l < free.len() {
            assert(free[k] != free[l]);
        }
    }
}

proof fn lemma_append<T>(
    slots: Seq<Option<Node<T>>>,
    order: Seq<usize>,
    s: usize,
    d: T,
    new_slots: Seq<Option<Node<T>>>,
)
    requires
        links_ok(slots, order),
        vacant(slots, s),
        new_slots.len() == slots.len(),
        forall|t: usize|
            t < slots.len() && t != s && (order.len() > 0 ==> t != order.last())
                ==> #[trigger] new_slots[t as int] == slots[t as int],
        new_slots[s as int] == Some(
            Node {
                data: d,
                next: None,
                prev: if order.len() == 0 {
                    None
                } else {
                    Some(order.last())
                },
            },
        ),
        order.len() > 0 ==> new_slots[order.last() as int] == Some(
            Node { next: Some(s), ..node_of(slots, order.last()) },
        ),
    ensures
        links_ok(new_slots, order.push(s)),
        payloads(new_slots, order.push(s)) == payloads(slots, order).push(d),
        forall|t: usize| #[trigger] vacant(slots, t) && t != s ==> vacant(new_slots, t),
{
    let n = order.len();
    let o = order.push(s);
    lemma_vacant_not_listed(slots, order, s);
    assert forall|i: int, j: int| 0 <= i < o.len() && 0 <= j < o.len() && i != j implies #[trigger] o[i]
        != #[trigger] o[j] by {
        if i < n && j < n {
            assert(order[i] != order[j]);
        }
    }
    assert forall|i: int| 0 <= i < o.len() implies #[trigger] linked_at(new_slots, o, i) by {
        if i < n {
            assert(linked_at(slots, order, i));
            if i < n - 1 {
                assert(order[i] != order[n - 1]);
                assert(new_slots[order[i] as int] == slots[order[i] as int]);
            }
        }
    }
    assert forall|i: int| 0 <= i < o.len() implies payloads(new_slots, o)[i] == payloads(
        slots,
        order,
    ).push(d)[i] by {
        if i < n {
            assert(linked_at(slots, order, i));
            if i < n - 1 {
                assert(order[i] != order[n - 1]);
            }
        }
    }
    assert(payloads(new_slots, o) =~= payloads(slots, order).push(d));
    assert forall|t: usize| #[trigger] vacant(slots, t) && t != s implies vacant(new_slots, t) by {
        if n > 0 {
            assert(linked_at(slots, order, n - 1));
        }
    }
}

proof fn lemma_prepend<T>(
    slots: Seq<Option<Node<T>>>,
    order: Seq<usize>,
    s: usize,
    d: T,
    new_slots: Seq<Option<Node<T>>>,
)
    requires
        links_ok(slots, order),
        vacant(slots, s),
        new_slots.len() == slots.len(),
        forall|t: usize|
            t < slots.len() && t != s && (order.len() > 0 ==> t != order[0])
                ==> #[trigger] new_slots[t as int] == slots[t as int],
        new_slots[s as int] == Some(
            Node {
                data: d,
                next: if order.len() == 0 {
                    None
                } else {
                    Some(order[0])
                },
                prev: None,
            },
        ),
        order.len() > 0 ==> new_slots[order[0] as int] == Some(
            Node { prev: Some(s), ..node_of(slots, order[0]) },
        ),
    ensures
        links_ok(new_slots, seq![s] + order),
        payloads(new_slots, seq![s] + order) == seq![d] + payloads(slots, order),
        forall|t: usize| #[trigger] vacant(slots, t) && t != s ==> vacant(new_slots, t),
{
    let n = order.len();
    let o = seq![s] + order;
    lemma_vacant_not_listed(slots, order, s);
    assert forall|i: int, j: int| 0 <= i < o.len() && 0 <= j < o.len() && i != j implies #[trigger] o[i]
        != #[trigger] o[j] by {
        if i > 0 && j > 0 {
            assert(order[i - 1] != order[j - 1]);
        }
    }
    assert forall|i: int| 0 <= i < o.len() implies #[trigger] linked_at(new_slots, o, i) by {
        if i > 0 {
            assert(o[i] == order[i - 1]);
            assert(linked_at(slots, order, i - 1));
            if i > 1 {
                assert(order[i - 1] != order[0]);
                assert(new_slots[order[i - 1] as int] == slots[order[i - 1] as int]);
            }
        }
    }
    assert forall|i: int| 0 <= i < o.len() implies payloads(new_slots, o)[i] == (seq![d]
        + payloads(slots, order))[i] by {
        if i > 0 {
            assert(o[i] == order[i - 1]);
            assert(linked_at(slots, order, i - 1));
            if i > 1 {
                assert(order[i - 1] != order[0]);
            }
        }
    }
    assert(payloads(new_slots, o) =~= seq![d] + payloads(slots, order));
    assert forall|t: usize| #[trigger] vacant(slots, t) && t != s implies vacant(new_slots, t) by {
        if n > 0 {
            assert(linked_at(slots, order, 0));
        }
    }
}

proof fn lemma_remove<T>(
    slots: Seq<Option<Node<T>>>,
    order: Seq<usize>,
    i: int,
    new_slots: Seq<Option<Node<T>>>,
)
    requires
        links_ok(slots, order),
        0 <= i < order.len(),
        new_slots.len() == slots.len(),
        new_slots[order[i] as int] is None,
        forall|t: usize|
            t < slots.len() && t != order[i] && (i > 0 ==> t != order[i - 1]) && (i + 1
                < order.len() ==> t != order[i + 1]) ==> #[trigger] new_slots[t as int]
                == slots[t as int],
        i > 0 ==> new_slots[order[i - 1] as int] == Some(
            Node { next: next_slot(order, i), ..node_of(slots, order[i - 1]) },
        ),
        i + 1 < order.len() ==> new_slots[order[i + 1] as int] == Some(
            Node { prev: prev_slot(order, i), ..node_of(slots, order[i + 1]) },
        ),
    ensures
        links_ok(new_slots, order.remove(i)),
        payloads(new_slots, order.remove(i)) == payloads(slots, order).remove(i),
        forall|t: usize| #[trigger] vacant(slots, t) ==> vacant(new_slots, t),
        vacant(new_slots, order[i]),
        forall|k: int| 0 <= k < order.remove(i).len() ==> order.remove(i)[k] != order[i],
{
    let n = order.len();
    let o = order.remove(i);
    assert(linked_at(slots, order, i));
    assert forall|a: int, b: int| 0 <= a < o.len() && 0 <= b < o.len() && a != b implies #[trigger] o[a]
        != #[trigger] o[b] by {
        let oa = if a < i {
            a
        } else {
            a + 1
        };
        let ob = if b < i {
            b
        } else {
            b + 1
        };
        assert(order[oa] != order[ob]);
    }
    assert forall|j: int| 0 <= j < o.len() implies #[trigger] linked_at(new_slots, o, j) by {
        let oj = if j < i {
            j
        } else {
            j + 1
        };
        assert(o[j] == order[oj]);
        assert(linked_at(slots, order, oj));
        assert(order[oj] != order[i]);
        if oj != i - 1 && oj != i + 1 {
            assert(i > 0 ==> order[oj] != order[i - 1]);
            assert(i + 1 < n ==> order[oj] != order[i + 1]);
            assert(new_slots[order[oj] as int] == slots[order[oj] as int]);
        }
    }
    assert forall|j: int| 0 <= j < o.len() implies payloads(new_slots, o)[j] == payloads(
        slots,
        order,
    ).remove(i)[j] by {
        let oj = if j < i {
            j
        } else {
            j + 1
        };
        assert(o[j] == order[oj]);
        assert(linked_at(slots, order, oj));
        assert(order[oj] != order[i]);
        if oj != i - 1 && oj != i + 1 {
            assert(i > 0 ==> order[oj] != order[i - 1]);
            assert(i + 1 < n ==> order[oj] != order[i + 1]);
        }
    }
    assert(payloads(new_slots, o) =~= payloads(slots, order).remove(i));
    assert forall|t: usize| #[trigger] vacant(slots, t) implies vacant(new_slots, t) by {
        if i > 0 {
            assert(linked_at(slots, order, i - 1));
        }
        if i + 1 < n {
            assert(linked_at(slots, order, i + 1));
        }
    }
    assert forall|k: int| 0 <= k < o.len() implies o[k] != order[i] by {
        let ok = if k < i {
            k
        } else {
            k + 1
        };
        assert(order[ok] != order[i]);
    }
}

/// A doubly linked list of `T`, with nodes addressed by [`NodeHandle`]s.
pub struct IntrusiveLinkedList<T> {
    slots: Vec<Option<Node<T>>>,
    free: Vec<usize>,
    first: Option<usize>,
    last: Option<usize>,
    len: usize,
    order: Ghost<Seq<usize>>,
}

impl<T> IntrusiveLinkedList<T> {
    /// The slots of the list's nodes, first to last.
    pub closed spec fn slot_order(&self) -> Seq<usize> {
        self.order@
    }

    /// The payloads, first to last.
    pub closed spec fn view(&self) -> Seq<T> {
        payloads(self.slots@, self.order@)
    }

    /// The handles of the nodes, first to last.
    pub closed spec fn handles(&self) -> Seq<NodeHandle> {
        handles_of(self.order@)
    }

    /// The arena and the links agree with the node order.
    pub closed spec fn wf(&self) -> bool {
        &&& self.len == self.order@.len()
        &&& links_ok(self.slots@, self.order@)
        &&& free_ok(self.slots@, self.free@)
        &&& self.first == (if self.order@.len() == 0 {
            None
        } else {
            Some(self.order@[0])
        })
        &&& self.last == (if self.order@.len() == 0 {
            None
        } else {
            Some(self.order@.last())
        })
    }

    /// Whether `h` names a node of this list.
    pub open spec fn contains_handle(&self, h: NodeHandle) -> bool {
        self.handles().contains(h)
    }

    proof fn lemma_handles_match(&self)
        ensures
            self.handles().len() == self.order@.len(),
            self.view().len() == self.order@.len(),
            forall|i: int|
                0 <= i < self.order@.len() ==> (#[trigger] self.handles()[i]).slot
                    == self.order@[i],
    {
    }

    /// An empty list.
    pub fn new() -> (list: Self)
        ensures
            list.wf(),
            list@ == Seq::<T>::empty(),
            list.handles() == Seq::<NodeHandle>::empty(),
    {
        let list = IntrusiveLinkedList {
            slots: Vec::new(),
            free: Vec::new(),
            first: None,
            last: None,
            len: 0,
            order: Ghost(Seq::empty()),
        };
        assert(list@ =~= Seq::<T>::empty());
        assert(list.handles() =~= Seq::<NodeHandle>::empty());
        list
    }

    /// The number of nodes.
    pub fn len(&self) -> (n: usize)
        requires
            self.wf(),
        ensures
            n == self@.len(),
    {
        self.len
    }

    /// Whether the list has no nodes.
    pub fn is_empty(&self) -> (b: bool)
        requires
            self.wf(),
        ensures
            b == (self@.len() == 0),
    {
        self.len == 0
    }

    /// A slot that holds no node, taken from the free slots or added to the arena.
    fn vacant_slot(&mut self) -> (s: usize)
        requires
            old(self).wf(),
        ensures
            links_ok(final(self).slots@, final(self).order@),
            free_ok(final(self).slots@, final(self).free@),
            vacant(final(self).slots@, s),
            forall|k: int| 0 <= k < final(self).free@.len() ==> final(self).free@[k] != s,
            final(self).order@ == old(self).order@,
            final(self)@ == old(self)@,
            final(self).first == old(self).first,
            final(self).last == old(self).last,
            final(self).len == old(self).len,
    {
        match self.free.pop() {
            Some(s) => {
                proof {
                    lemma_free_pop(self.slots@, old(self).free@);
                    assert(self.free@ =~= old(self).free@.drop_last());
                }
                s
            },
            None => {
                let s = self.slots.len();
                self.slots.push(None);
                proof {
                    let s1 = old(self).slots@;
                    let s2 = self.slots@;
                    assert forall|t: usize| #[trigger] occupied(s1, t) implies t < s2.len() && s2[t
                        as int] == s1[t as int] by {}
                    lemma_links_frame(s1, s2, self.order@);
                    assert forall|t: usize| #[trigger] vacant(s1, t) && t != s implies vacant(
                        s2,
                        t,
                    ) by {}
                    assert forall|k: int| 0 <= k < self.free@.len() implies self.free@[k] != s by {
                        assert(vacant(s1, self.free@[k]));
                    }
                    lemma_free_frame(s1, s2, self.free@, s);
                }
                s
            },
        }
    }

    /// Links `node` in as the last node and returns its handle.
    pub fn append_node(&mut self, node: Box<Node<T>>) -> (h: NodeHandle)
        requires
            old(self).wf(),
            old(self)@.len() < usize::MAX,
        ensures
            final(self).wf(),
            final(self)@ == old(self)@.push(node.payload()),
            final(self).handles() == old(self).handles().push(h),
            !old(self).handles().contains(h),
    {
        let data = node.data;
        let s = self.vacant_slot();
        let ghost mid = *self;
        let prev = self.last;
        match self.last {
            Some(l) => {
                proof {
                    assert(linked_at(self.slots@, self.order@, self.order@.len() - 1));
                }
                let mut last_node = self.slots[l].take().unwrap();
                last_node.next = Some(s);
                self.slots[l] = Some(last_node);
            },
            None => {
                self.first = Some(s);
            },
        }
        self.slots[s] = Some(Node { data, next: None, prev });
        self.last = Some(s);
        self.len = self.len + 1;
        self.order = Ghost(self.order@.push(s));
        proof {
            let order = mid.order@;
            if order.len() > 0 {
                assert(linked_at(mid.slots@, order, order.len() - 1));
            }
            lemma_append(mid.slots@, order, s, data, self.slots@);
            lemma_free_frame(mid.slots@, self.slots@, self.free@, s);
            lemma_vacant_not_listed(mid.slots@, order, s);
            assert(handles_of(self.order@) =~= handles_of(order).push(NodeHandle { slot: s }));
            if handles_of(order).contains(NodeHandle { slot: s }) {
                let i = choose|i: int|
                    0 <= i < handles_of(order).len() && handles_of(order)[i] == NodeHandle {
                        slot: s,
                    };
                assert(order[i] == s);
            }
        }
        NodeHandle { slot: s }
    }

    /// Links `node` in as the first node and returns its handle.
    pub fn prepend_node(&mut self, node: Box<Node<T>>) -> (h: NodeHandle)
        requires
            old(self).wf(),
            old(self)@.len() < usize::MAX,
        ensures
            final(self).wf(),
            final(self)@ == seq![node.payload()] + old(self)@,
            final(self).handles() == seq![h] + old(self).handles(),
            !old(self).handles().contains(h),
    {
        let data = node.data;
        let s = self.vacant_slot();
        let ghost mid = *self;
        let next = self.first;
        match self.first {
            Some(f) => {
                proof {
                    assert(linked_at(self.slots@, self.order@, 0));
                }
                let mut first_node = self.slots[f].take().unwrap();
                first_node.prev = Some(s);
                self.slots[f] = Some(first_node);
            },
            None => {
                self.last = Some(s);
            },
        }
        self.slots[s] = Some(Node { data, next, prev: None });
        self.first = Some(s);
        self.len = self.len + 1;
        self.order = Ghost(seq![s] + self.order@);
        proof {
            let order = mid.order@;
            if order.len() > 0 {
                assert(linked_at(mid.slots@, order, 0));
            }
            lemma_prepend(mid.slots@, order, s, data, self.slots@);
            lemma_free_frame(mid.slots@, self.slots@, self.free@, s);
            lemma_vacant_not_listed(mid.slots@, order, s);
            assert(handles_of(self.order@) =~= seq![NodeHandle { slot: s }] + handles_of(order));
            if handles_of(order).contains(NodeHandle { slot: s }) {
                let i = choose|i: int|
                    0 <= i < handles_of(order).len() && handles_of(order)[i] == NodeHandle {
                        slot: s,
                    };
                assert(order[i] == s);
            }
        }
        NodeHandle { slot: s }
    }

    /// Unlinks the node named by `handle` and returns it, detached.
    pub fn remove_node(&mut self, handle: NodeHandle) -> (node: Box<Node<T>>)
        requires
            old(self).wf(),
            old(self).contains_handle(handle),
        ensures
            final(self).wf(),
            ({
                let i = old(self).handles().index_of(handle);
                &&& node.payload() == old(self)@[i]
                &&& final(self)@ == old(self)@.remove(i)
                &&& final(self).handles() == old(self).handles().remove(i)
            }),
            node.detached(),
    {
        let ghost order = self.order@;
        let ghost slots0 = self.slots@;
        let ghost i = handles_of(order).index_of(handle);
        let s = handle.slot;
        proof {
            assert(handles_of(order)[i] == handle);
            assert(order[i] == s);
            assert(linked_at(slots0, order, i));
            if i > 0 {
                assert(linked_at(slots0, order, i - 1));
                assert(order[i - 1] != order[i]);
            }
            if i + 1 < order.len() {
                assert(linked_at(slots0, order, i + 1));
                assert(order[i + 1] != order[i]);
            }
            if i > 0 && i + 1 < order.len() {
                assert(order[i - 1] != order[i + 1]);
            }
        }
        let removed = self.slots[s].take().unwrap();
        let prev = removed.prev;
        let next = removed.next;
        match prev {
            Some(p) => {
                let mut prev_node = self.slots[p].take().unwrap();
                prev_node.next = next;
                self.slots[p] = Some(prev_node);
            },
            None => {
                self.first = next;
            },
        }
        match next {
            Some(q) => {
                let mut next_node = self.slots[q].take().unwrap();
                next_node.prev = prev;
                self.slots[q] = Some(next_node);
            },
            None => {
                self.last = prev;
            },
        }
        self.free.push(s);
        self.len = self.len - 1;
        self.order = Ghost(self.order@.remove(i));
        proof {
            lemma_remove(slots0, order, i, self.slots@);
            assert forall|k: int| 0 <= k < old(self).free@.len() implies old(self).free@[k]
                != s by {
                assert(vacant(slots0, old(self).free@[k]));
                assert(linked_at(slots0, order, i));
            }
            lemma_free_frame(slots0, self.slots@, old(self).free@, s);
            lemma_free_push(self.slots@, old(self).free@, s);
            assert(self.free@ =~= old(self).free@.push(s));
            assert(handles_of(self.order@) =~= handles_of(order).remove(i));
        }
        Box::new(Node { data: removed.data, next: None, prev: None })
    }

    /// Handles of distinct nodes differ, so each handle's position is where it occurs.
    pub proof fn lemma_handle_positions(&self)
        requires
            self.wf(),
        ensures
            self.handles().len() == self@.len(),
            self.handles().no_duplicates(),
            forall|i: int|
                0 <= i < self.handles().len() ==> #[trigger] self.handles().index_of(
                    self.handles()[i],
                ) == i,
    {
        let hs = self.handles();
        assert forall|i: int, j: int| 0 <= i < hs.len() && 0 <= j < hs.len() && i != j implies hs[i]
            != hs[j] by {
            assert(self.order@[i] != self.order@[j]);
        }
        assert forall|i: int| 0 <= i < hs.len() implies #[trigger] hs.index_of(hs[i]) == i by {
            let k = hs.index_of(hs[i]);
            assert(hs.contains(hs[i]));
            assert(0 <= k < hs.len() && hs[k] == hs[i]);
        }
    }

    /// The handle of the first node, if the list has one.
    pub fn first_handle(&self) -> (h: Option<NodeHandle>)
        requires
            self.wf(),
        ensures
            match h {
                Some(h) => self@.len() > 0 && h == self.handles()[0],
                None => self@.len() == 0,
            },
    {
        match self.first {
            Some(s) => Some(NodeHandle { slot: s }),
            None => None,
        }
    }

    /// The payload of the node named by `handle`.
    pub fn get(&self, handle: NodeHandle) -> (d: &T)
        requires
            self.wf(),
            self.contains_handle(handle),
        ensures
            *d == self@[self.handles().index_of(handle)],
    {
        let ghost i = self.handles().index_of(handle);
        proof {
            assert(handles_of(self.order@)[i] == handle);
            assert(linked_at(self.slots@, self.order@, i));
        }
        let node = self.slots[handle.slot].as_ref().unwrap();
        &node.data
    }

    /// The payload of the node named by `handle`, to modify in place.
    pub fn get_mut(&mut self, handle: NodeHandle) -> (d: &mut T)
        requires
            old(self).wf(),
            old(self).contains_handle(handle),
        ensures
            *d == old(self)@[old(self).handles().index_of(handle)],
            final(self).wf(),
            final(self).handles() == old(self).handles(),
            final(self)@ == old(self)@.update(old(self).handles().index_of(handle), *final(d)),
    {
        let ghost i = self.handles().index_of(handle);
        let ghost slots0 = self.slots@;
        let ghost order = self.order@;
        proof {
            assert(handles_of(order)[i] == handle);
            assert(linked_at(slots0, order, i));
        }
        let s = handle.slot;
        let slot = &mut self.slots[s];
        match slot {
            Some(node) => {
                let d = &mut node.data;
                proof {
                    let slots1 = slots0.update(s as int, Some(Node { data: *final(d), next: node.next, prev: node.prev }));
                    assert forall|j: int| 0 <= j < order.len() implies #[trigger] linked_at(slots1, order, j) by {
                        assert(linked_at(slots0, order, j));
                    }
                    assert forall|k: int| 0 <= k < self.free@.len() implies #[trigger] vacant(
                        slots1,
                        self.free@[k],
                    ) by {
                        assert(vacant(slots0, self.free@[k]));
                    }
                    assert forall|j: int| 0 <= j < order.len() implies payloads(slots1, order)[j] == payloads(
                        slots0,
                        order,
                    ).update(i, *final(d))[j] by {
                        if j != i {
                            assert(linked_at(slots0, order, j));
                            assert(order[j] != order[i]);
                        }
                    }
                    assert(payloads(slots1, order) =~= payloads(slots0, order).update(i, *final(d)));
                }
                d
            },
            None => {
                proof {
                    assert(false);
                }
                vstd::pervasive::unreached()
            },
        }
    }

    /// Swaps the payload of the node named by `handle` for `data`, returning the old payload.
    pub fn replace(&mut self, handle: NodeHandle, data: T) -> (old_data: T)
        requires
            old(self).wf(),
            old(self).contains_handle(handle),
        ensures
            final(self).wf(),
            final(self).handles() == old(self).handles(),
            old_data == old(self)@[old(self).handles().index_of(handle)],
            final(self)@ == old(self)@.update(old(self).handles().index_of(handle), data),
    {
        let ghost i = self.handles().index_of(handle);
        let ghost slots0 = self.slots@;
        let ghost order = self.order@;
        proof {
            assert(handles_of(order)[i] == handle);
            assert(linked_at(slots0, order, i));
        }
        let s = handle.slot;
        let node = self.slots[s].take().unwrap();
        let Node { data: old_data, next, prev } = node;
        self.slots[s] = Some(Node { data, next, prev });
        proof {
            let slots1 = self.slots@;
            assert forall|j: int| 0 <= j < order.len() implies #[trigger] linked_at(slots1, order, j) by {
                assert(linked_at(slots0, order, j));
            }
            assert forall|k: int| 0 <= k < self.free@.len() implies #[trigger] vacant(
                slots1,
                self.free@[k],
            ) by {
                assert(vacant(slots0, self.free@[k]));
            }
            assert forall|j: int| 0 <= j < order.len() implies payloads(slots1, order)[j] == payloads(
                slots0,
                order,
            ).update(i, data)[j] by {
                if j != i {
                    assert(linked_at(slots0, order, j));
                    assert(order[j] != order[i]);
                }
            }
            assert(payloads(slots1, order) =~= payloads(slots0, order).update(i, data));
        }
        old_data
    }

    /// A cursor over the payloads, first to last.
    pub fn iter(&self) -> (it: Iter<'_, T>)
        requires
            self.wf(),
        ensures
            it.wf(),
            it.remaining() == self@,
    {
        let it = Iter { list: self, current: self.first, pos: Ghost(0) };
        assert(it.remaining() =~= self@);
        it
    }

    /// Unlinks every node, returning the payloads first to last.
    pub fn drain(&mut self) -> (items: Vec<T>)
        requires
            old(self).wf(),
        ensures
            final(self).wf(),
            items@ == old(self)@,
            final(self)@ == Seq::<T>::empty(),
            final(self).handles() == Seq::<NodeHandle>::empty(),
    {
        let mut items: Vec<T> = Vec::new();
        while self.len > 0
            invariant
                self.wf(),
                items@ + self@ == old(self)@,
            decreases self.len,
        {
            proof {
                self.lemma_handles_match();
            }
            let first = self.first.unwrap();
            let h = NodeHandle { slot: first };
            proof {
                assert(self.handles()[0] == h);
                assert(self.handles().index_of(h) == 0) by {
                    assert forall|j: int| 0 <= j < self.handles().len() && self.handles()[j] == h
                        implies j == 0 by {
                        if j != 0 {
                            assert(self.order@[j] != self.order@[0]);
                        }
                    }
                }
            }
            let ghost before = self@;
            let node = self.remove_node(h);
            proof {
                self.lemma_handles_match();
            }
            items.push(node.data);
            assert(items@ + self@ =~= old(self)@) by {
                assert(before =~= seq![before[0]] + before.remove(0));
            }
        }
        proof {
            self.lemma_handles_match();
        }
        assert(items@ =~= old(self)@);
        assert(self@ =~= Seq::<T>::empty());
        assert(self.handles() =~= Seq::<NodeHandle>::empty());
        items
    }
}

/// A cursor walking an [`IntrusiveLinkedList`] from first to last.
pub struct Iter<'a, T> {
    list: &'a IntrusiveLinkedList<T>,
    current: Option<usize>,
    pos: Ghost<int>,
}

impl<'a, T> Iter<'a, T> {
    /// The cursor position agrees with the list.
    pub closed spec fn wf(&self) -> bool {
        &&& self.list.wf()
        &&& 0 <= self.pos@ <= self.list.order@.len()
        &&& self.current == (if self.pos@ < self.list.order@.len() {
            Some(self.list.order@[self.pos@])
        } else {
            None
        })
    }

    /// The payloads not yet visited.
    pub closed spec fn remaining(&self) -> Seq<T> {
        self.list@.subrange(self.pos@, self.list@.len() as int)
    }

    /// The next payload, if any.
    pub fn next(&mut self) -> (item: Option<&'a T>)
        requires
            old(self).wf(),
        ensures
            final(self).wf(),
            old(self).remaining().len() == 0 ==> item is None && final(self).remaining()
                == old(self).remaining(),
            old(self).remaining().len() > 0 ==> item == Some(&old(self).remaining()[0])
                && final(self).remaining() == old(self).remaining().drop_first(),
    {
        match self.current {
            None => None,
            Some(s) => {
                proof {
                    assert(linked_at(self.list.slots@, self.list.order@, self.pos@));
                }
                let list: &'a IntrusiveLinkedList<T> = self.list;
                let node: &'a Node<T> = list.slots[s].as_ref().unwrap();
                self.current = node.next;
                self.pos = Ghost(self.pos@ + 1);
                proof {
                    assert(self.remaining() =~= old(self).remaining().drop_first());
                }
                Some(&node.data)
            },
        }
    }
}

/// Removing the node that was just appended hands back its payload and
/// leaves the list as it was before the append.
pub proof fn law_remove_undoes_append<T>(
    before: IntrusiveLinkedList<T>,
    after: IntrusiveLinkedList<T>,
    payload: T,
    h: NodeHandle,
)
    requires
        before.wf(),
        after.wf(),
        after@ == before@.push(payload),
        after.handles() == before.handles().push(h),
        !before.handles().contains(h),
    ensures
        after.contains_handle(h),
        after@[after.handles().index_of(h)] == payload,
        after@.remove(after.handles().index_of(h)) == before@,
        after.handles().remove(after.handles().index_of(h)) == before.handles(),
{
    before.lemma_handle_positions();
    after.lemma_handle_positions();
    let n = before.handles().len() as int;
    assert(after.handles()[n] == h);
    assert(after.handles().index_of(after.handles()[n]) == n);
    assert(after@.remove(n) =~= before@);
    assert(after.handles().remove(n) =~= before.handles());
}

/// Removing the node that was just prepended hands back its payload and
/// leaves the list as it was before the prepend.
pub proof fn law_remove_undoes_prepend<T>(
    before: IntrusiveLinkedList<T>,
    after: IntrusiveLinkedList<T>,
    payload: T,
    h: NodeHandle,
)
    requires
        before.wf(),
        after.wf(),
        after@ == seq![payload] + before@,
        after.handles() == seq![h] + before.handles(),
        !before.handles().contains(h),
    ensures
        after.contains_handle(h),
        after@[after.handles().index_of(h)] == payload,
        after@.remove(after.handles().index_of(h)) == before@,
        after.handles().remove(after.handles().index_of(h)) == before.handles(),
{
    after.lemma_handle_positions();
    assert(after.handles()[0] == h);
    assert(after.handles().index_of(after.handles()[0]) == 0);
    assert(after@.remove(0) =~= before@);
    assert(after.handles().remove(0) =~= before.handles());
}

} // verus!
