use vstd::prelude::*;

verus! {

/// A link is either empty (end of chain) or the arena index of the node
/// that owns everything from this point onward.
pub(crate) type Link = Option<usize>;

/// One element of the chain together with the link to its successor.
/// The value sits behind an `Option` so that removing a node can move the
/// element out while the vacated arena slot stays behind as garbage.
pub(crate) struct Node<T> {
    pub(crate) value: Option<T>,
    pub(crate) next: Link,
}

/// The link a chain `ord` presents at position `i`: the `i`-th node's index,
/// or `None` past the last node.
pub(crate) open spec fn link_of(ord: Seq<usize>, i: int) -> Link {
    if 0 <= i < ord.len() {
        Some(ord[i])
    } else {
        None
    }
}

/// A simply linked list.
///
/// `nodes` is the arena; `head` starts the chain; `len` caches the number of
/// reachable nodes. The ghost `order` lists the arena indices of the chain
/// in traversal order, which is what ties `len` and `head` to the actual
/// shape of the links (invariant `wf`).
pub struct List<T> {
    pub(crate) nodes: Vec<Node<T>>,
    pub(crate) head: Link,
    pub(crate) len: usize,
    pub(crate) order: Ghost<Seq<usize>>,
}

impl<T> List<T> {
    /// Well-formedness: `order` names distinct live arena slots, the links
    /// thread them together in order starting from `head`, and the cached
    /// `len` equals the number of reachable nodes.
    pub open(crate) spec fn wf(&self) -> bool {
        let ord = self.order@;
        &&& ord.len() == self.len
        &&& forall|i: int| 0 <= i < ord.len() ==> (#[trigger] ord[i]) < self.nodes@.len()
        &&& forall|i: int, j: int| 0 <= i < j < ord.len() ==> ord[i] != ord[j]
        &&& self.head == link_of(ord, 0)
        &&& forall|i: int|
            0 <= i < ord.len() ==> (#[trigger] self.nodes@[ord[i] as int]).next == link_of(ord, i + 1)
        &&& forall|i: int| 0 <= i < ord.len() ==> (#[trigger] self.nodes@[ord[i] as int]).value is Some
    }

    /// The elements of the list, in chain order.
    pub open(crate) spec fn contents(&self) -> Seq<T> {
        Seq::new(self.order@.len(), |i: int| self.nodes@[self.order@[i] as int].value.unwrap())
    }

    /// A new empty list.
    pub fn new() -> (r: List<T>)
        ensures
            r.wf(),
            r@ == Seq::<T>::empty(),
    {
        List { nodes: Vec::new(), head: None, len: 0, order: Ghost(Seq::empty()) }
    }

    /// The size of the list in O(1).
    pub fn len(&self) -> (r: usize)
        requires
            self.wf(),
        ensures
            r == self@.len(),
    {
        self.len
    }

    /// Whether the list holds no element, in O(1).
    pub fn is_empty(&self) -> (r: bool)
        requires
            self.wf(),
        ensures
            r == (self@.len() == 0),
    {
        self.head.is_none()
    }

    /// Push a new element at the front of the list in O(1).
    pub fn push_front(&mut self, v: T)
        requires
            old(self).wf(),
            old(self)@.len() < usize::MAX,
        ensures
            final(self).wf(),
            final(self)@ == seq![v] + old(self)@,
    {
        let idx = self.nodes.len();
        let h = self.head;
        self.nodes.push(Node { value: Some(v), next: h });
        self.head = Some(idx);
        self.len = self.len + 1;
        self.order = Ghost(seq![idx] + self.order@);
        proof {
            assert(self.wf());
            assert(self@ =~= seq![v] + old(self)@);
        }
    }

    /// Pop the element at the front of the list in O(1).
    /// Returns `None` if the list is empty.
    pub fn pop_front(&mut self) -> (r: Option<T>)
        requires
            old(self).wf(),
        ensures
            final(self).wf(),
            old(self)@.len() == 0 ==> r is None && final(self)@ == old(self)@,
            old(self)@.len() > 0 ==> r == Some(old(self)@[0]) && final(self)@ == old(
                self,
            )@.drop_first(),
    {
        match self.head {
            None => {
                proof {
                    assert(self.head == link_of(self.order@, 0));
                    assert(self@.len() == self.order@.len());
                }
                None
            },
            Some(j) => {
                proof {
                    assert(self.head == link_of(self.order@, 0));
                    assert(j == self.order@[0]);
                    assert(self.order@[0] < self.nodes@.len());
                }
                let node = &mut self.nodes[j];
                let v = node.value.take();
                let nxt = node.next;
                self.head = nxt;
                self.len = self.len - 1;
                self.order = Ghost(self.order@.drop_first());
                proof {
                    let ord = old(self).order@;
                    let ordp = self.order@;
                    assert forall|i: int| 0 <= i < ordp.len() implies {
                        &&& (#[trigger] ordp[i]) < self.nodes@.len()
                        &&& self.nodes@[ordp[i] as int].next == link_of(ordp, i + 1)
                        &&& self.nodes@[ordp[i] as int].value is Some
                        &&& self.nodes@[ordp[i] as int] == old(self).nodes@[ord[i + 1] as int]
                    } by {
                        assert(ordp[i] == ord[i + 1]);
                        assert(ord[0] != ord[i + 1]);
                        assert(old(self).nodes@[ord[i + 1] as int].next == link_of(ord, i + 2));
                    }
                    assert(self.wf());
                    assert forall|i: int| 0 <= i < ordp.len() implies self@[i] == old(
                        self,
                    )@.drop_first()[i] by {
                        assert(ordp[i] == ord[i + 1]);
                        assert(ord[0] != ord[i + 1]);
                    }
                    assert(self@ =~= old(self)@.drop_first());
                    assert(v == Some(old(self)@[0]));
                }
                v
            },
        }
    }

    /// A reference to the first element, or `None` if the list is empty.
    pub fn front(&self) -> (r: Option<&T>)
        requires
            self.wf(),
        ensures
            self@.len() == 0 ==> r is None,
            self@.len() > 0 ==> (match r {
                Some(v) => *v == self@[0],
                None => false,
            }),
    {
        match self.head {
            None => {
                proof {
                    assert(self.head == link_of(self.order@, 0));
                    assert(self@.len() == self.order@.len());
                }
                None
            },
            Some(j) => {
                proof {
                    assert(j == self.order@[0]);
                    assert(self.order@[0] < self.nodes@.len());
                    assert(self@[0] == self.nodes@[self.order@[0] as int].value.unwrap());
                }
                self.nodes[j].value.as_ref()
            },
        }
    }

    /// A mutable reference to the first element, or `None` if the list is
    /// empty.
    pub fn front_mut(&mut self) -> (r: Option<&mut T>)
        requires
            old(self).wf(),
        ensures
            old(self)@.len() == 0 ==> r is None && *final(self) == *old(self),
            old(self)@.len() > 0 ==> (match r {
                Some(v) => {
                    &&& *v == old(self)@[0]
                    &&& final(self)@ =~= old(self)@.update(0, *final(v))
                    &&& final(self).wf()
                },
                None => false,
            }),
    {
        match self.head {
            None => {
                proof {
                    assert(self.head == link_of(self.order@, 0));
                    assert(self@.len() == self.order@.len());
                }
                None
            },
            Some(j) => {
                proof {
                    let ord = self.order@;
                    assert(j == ord[0]);
                    assert(ord[0] < self.nodes@.len());
                    assert forall|i: int| 1 <= i < ord.len() implies ord[0] != #[trigger] ord[i] by {}
                    assert forall|i: int| 0 <= i < ord.len() implies self@[i] == self.nodes@[(
                    #[trigger] ord[i]) as int].value.unwrap() by {}
                    assert(self@.len() == ord.len());
                }
                let node = &mut self.nodes[j];
                node.value.as_mut()
            },
        }
    }

    /// Empty the list but keep the arena's allocation, for reuse.
    pub(crate) fn reset_keeping_arena(&mut self)
        ensures
            final(self).wf(),
            final(self)@ == Seq::<T>::empty(),
    {
        self.nodes.clear();
        self.head = None;
        self.len = 0;
        self.order = Ghost(Seq::empty());
    }

    /// Empty the list in O(1); the whole arena is released at once.
    pub fn clear(&mut self)
        ensures
            final(self).wf(),
            final(self)@ == Seq::<T>::empty(),
    {
        self.nodes = Vec::new();
        self.head = None;
        self.len = 0;
        self.order = Ghost(Seq::empty());
    }
}

/// A default empty list.
impl<T> Default for List<T> {
    fn default() -> (r: List<T>)
        ensures
            r.wf(),
            r@ == Seq::<T>::empty(),
    {
        List::new()
    }
}

impl<T> View for List<T> {
    type V = Seq<T>;

    open spec fn view(&self) -> Seq<T> {
        self.contents()
    }
}

} // verus!
