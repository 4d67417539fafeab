use crate::list::{link_of, List, Node};
use vstd::prelude::*;

verus! {

/// A cursor to navigate the list and reshape it.
///
/// Conceptually, a cursor sits between nodes, like the cursor of a text
/// editor: it holds the *slot* that owns everything from its position
/// onward (`prev` names the node whose outgoing link is that slot, or the
/// list head when the cursor is at the front), together with the number of
/// nodes already skipped.
///
/// The cursor owns the list while it is alive — the arena is passed along
/// by exclusive handle rather than held by reference — and hands it back
/// through [`Cursor::finish`].
pub struct Cursor<T> {
    pub(crate) list: List<T>,
    pub(crate) prev: Option<usize>,
    pub(crate) position: usize,
}

impl<T> List<T> {
    /// A cursor at the beginning of the list (before the first node).
    /// The cursor takes the list over; [`Cursor::finish`] returns it.
    pub fn cursor(self) -> (c: Cursor<T>)
        requires
            self.wf(),
        ensures
            c.wf(),
            c@ == self@,
            c.pos() == 0,
    {
        Cursor { list: self, prev: None, position: 0 }
    }
}

impl<T> Cursor<T> {
    /// Well-formedness: the underlying list is well-formed, the position is
    /// within bounds, and `prev` is the node just before the position.
    pub open(crate) spec fn wf(&self) -> bool {
        &&& self.list.wf()
        &&& self.position <= self.list.order@.len()
        &&& (if self.position == 0 {
            self.prev is None
        } else {
            self.prev == Some(self.list.order@[self.position - 1])
        })
    }

    /// The number of nodes between the chain head and the cursor.
    pub open(crate) spec fn pos(&self) -> int {
        self.position as int
    }

    /// The elements of the underlying list, in chain order.
    pub open(crate) spec fn contents(&self) -> Seq<T> {
        self.list@
    }

    /// Give the underlying list back.
    pub fn finish(self) -> (l: List<T>)
        requires
            self.wf(),
        ensures
            l.wf(),
            l@ == self@,
    {
        self.list
    }

    /// The content of the slot the cursor holds: the index of the node
    /// directly after the cursor, or `None` at the end of the chain.
    pub(crate) fn read_slot(&self) -> (r: Option<usize>)
        requires
            self.wf(),
        ensures
            r == link_of(self.list.order@, self.pos()),
    {
        match self.prev {
            None => self.list.head,
            Some(j) => {
                proof {
                    let ord = self.list.order@;
                    assert(j == ord[self.pos() - 1]);
                    assert(self.list.nodes@[ord[self.pos() - 1] as int].next == link_of(
                        ord,
                        self.pos(),
                    ));
                }
                self.list.nodes[j].next
            },
        }
    }

    /// A read-only reference to the following node's value.
    /// Returns `None` if the cursor is past the end of the list.
    pub fn value(&self) -> (r: Option<&T>)
        requires
            self.wf(),
        ensures
            self.pos() < self@.len() ==> (match r {
                Some(v) => *v == self@[self.pos()],
                None => false,
            }),
            self.pos() >= self@.len() ==> r is None,
    {
        match self.read_slot() {
            None => None,
            Some(j) => {
                proof {
                    let ord = self.list.order@;
                    assert(j == ord[self.pos()]);
                    assert(self@[self.pos()] == self.list.nodes@[ord[self.pos()] as int].value.unwrap());
                }
                self.list.nodes[j].value.as_ref()
            },
        }
    }

    /// A mutable reference to the following node's value.
    /// Returns `None` if the cursor is past the end of the list.
    pub fn value_mut(&mut self) -> (r: Option<&mut T>)
        requires
            old(self).wf(),
        ensures
            old(self).pos() >= old(self)@.len() ==> r is None && *final(self) == *old(self),
            old(self).pos() < old(self)@.len() ==> (match r {
                Some(v) => {
                    &&& *v == old(self)@[old(self).pos()]
                    &&& final(self)@ =~= old(self)@.update(old(self).pos(), *final(v))
                    &&& final(self).wf()
                    &&& final(self).pos() == old(self).pos()
                },
                None => false,
            }),
    {
        match self.read_slot() {
            None => None,
            Some(j) => {
                proof {
                    let ord = self.list.order@;
                    let p = self.pos();
                    assert(j == ord[p]);
                    assert(ord[p] < self.list.nodes@.len());
                    assert forall|i: int| 0 <= i < ord.len() && i != p implies ord[p] != (
                    #[trigger] ord[i]) by {}
                    assert forall|i: int| 0 <= i < ord.len() implies self@[i] == self.list.nodes@[(
                    #[trigger] ord[i]) as int].value.unwrap() by {}
                    assert(self@.len() == ord.len());
                }
                let node = &mut self.list.nodes[j];
                node.value.as_mut()
            },
        }
    }

    /// Move the cursor past the following node, if any. Returns whether the
    /// cursor, after the move, still has a node in front of it — `false`
    /// exactly when it has reached the end of the list.
    pub fn next(&mut self) -> (r: bool)
        requires
            old(self).wf(),
        ensures
            final(self).wf(),
            final(self)@ == old(self)@,
            final(self).pos() == if old(self).pos() < old(self)@.len() {
                old(self).pos() + 1
            } else {
                old(self).pos()
            },
            r == (final(self).pos() < old(self)@.len()),
    {
        match self.read_slot() {
            Some(j) => {
                proof {
                    assert(j == self.list.order@[self.pos()]);
                }
                self.prev = Some(j);
                self.position = self.position + 1;
            },
            None => {},
        }
        self.position < self.list.len
    }

    /// The number of nodes after the cursor, in O(1).
    pub fn len(&self) -> (r: usize)
        requires
            self.wf(),
        ensures
            r == self@.len() - self.pos(),
    {
        self.list.len - self.position
    }

    /// The position from the beginning of the list.
    pub fn position(&self) -> (r: usize)
        ensures
            r == self.pos(),
    {
        self.position
    }

    /// Rebind the slot the cursor holds to `x`: the head link when the
    /// cursor is at the front, the previous node's outgoing link otherwise.
    /// Raw field surgery — callers re-establish well-formedness themselves.
    fn write_slot(&mut self, x: Option<usize>)
        requires
            (match old(self).prev {
                Some(j) => j < old(self).list.nodes@.len(),
                None => true,
            }),
        ensures
            final(self).prev == old(self).prev,
            final(self).position == old(self).position,
            final(self).list.len == old(self).list.len,
            final(self).list.order == old(self).list.order,
            (match old(self).prev {
                None => final(self).list.head == x && final(self).list.nodes@ == old(
                    self,
                ).list.nodes@,
                Some(j) => final(self).list.head == old(self).list.head && final(self).list.nodes@
                    == old(self).list.nodes@.update(
                    j as int,
                    (Node { value: old(self).list.nodes@[j as int].value, next: x }),
                ),
            }),
    {
        match self.prev {
            None => {
                self.list.head = x;
            },
            Some(j) => {
                let node = &mut self.list.nodes[j];
                node.next = x;
            },
        }
    }

    /// Create a new node holding `v` and insert it at the cursor, in O(1).
    /// The new node takes over everything the cursor used to see; the cursor
    /// moves past it, so it still faces the same following element.
    /// Returns a mutable reference to the stored value.
    #[verifier::rlimit(60)]
    pub fn insert(&mut self, v: T) -> (r: &mut T)
        requires
            old(self).wf(),
            old(self)@.len() < usize::MAX,
        ensures
            *r == v,
            final(self).wf(),
            final(self)@ =~= old(self)@.insert(old(self).pos(), *final(r)),
            final(self).pos() == old(self).pos() + 1,
    {
        let s = self.read_slot();
        let idx = self.list.nodes.len();
        self.list.nodes.push(Node { value: Some(v), next: s });
        self.write_slot(Some(idx));
        self.prev = Some(idx);
        self.position = self.position + 1;
        self.list.len = self.list.len + 1;
        self.list.order = Ghost(old(self).list.order@.insert(old(self).pos(), idx));
        proof {
            let ord = old(self).list.order@;
            let ordn = self.list.order@;
            let p = old(self).pos();
            ord.insert_ensures(p, idx);
            assert forall|i: int| 0 <= i < ordn.len() implies {
                &&& (#[trigger] ordn[i]) < self.list.nodes@.len()
                &&& self.list.nodes@[ordn[i] as int].next == link_of(ordn, i + 1)
                &&& self.list.nodes@[ordn[i] as int].value is Some
            } by {
                if i < p {
                    assert(ordn[i] == ord[i]);
                    if i + 1 < p {
                        assert(ordn[i + 1] == ord[i + 1]);
                    }
                    assert(old(self).list.nodes@[ord[i] as int].next == link_of(ord, i + 1));
                } else if i == p {
                    assert(ordn[i] == idx);
                } else {
                    assert(ordn[i] == ord[i - 1]);
                    assert(old(self).list.nodes@[ord[i - 1] as int].next == link_of(ord, i));
                    if i < ordn.len() - 1 {
                        assert(ordn[i + 1] == ord[i]);
                    }
                }
            }
            assert forall|i: int, j: int| 0 <= i < j < ordn.len() implies ordn[i] != ordn[j] by {
                if i != p && j != p {
                    let i0: int = if i < p { i } else { i - 1 };
                    let j0: int = if j < p { j } else { j - 1 };
                    assert(ordn[i] == ord[i0]);
                    assert(ordn[j] == ord[j0]);
                } else {
                    assert(forall|k: int| 0 <= k < ord.len() ==> (#[trigger] ord[k])
                        < old(self).list.nodes@.len());
                }
            }
            assert(self.wf());
            assert forall|i: int| 0 <= i < ordn.len() implies self@[i] == old(self)@.insert(
                p,
                v,
            )[i] by {
                if i < p {
                    assert(ordn[i] == ord[i]);
                    assert(ord[i] != idx);
                } else if i > p {
                    assert(ordn[i] == ord[i - 1]);
                    assert(ord[i - 1] != idx);
                }
            }
            assert(self@ =~= old(self)@.insert(p, v));
        }
        proof {
            let ordn = self.list.order@;
            let p = old(self).pos();
            assert(ordn[p] == idx);
            assert forall|i: int| 0 <= i < ordn.len() && i != p implies ordn[i] != idx by {}
            assert forall|i: int| 0 <= i < ordn.len() implies self@[i] == self.list.nodes@[(
            #[trigger] ordn[i]) as int].value.unwrap() by {}
        }
        let node = &mut self.list.nodes[idx];
        match node.value.as_mut() {
            Some(r) => r,
            None => vstd::pervasive::unreached(),
        }
    }

    /// Detach and return the node directly after the cursor, in O(1);
    /// the slot takes over that node's successor. Returns `None` at the end
    /// of the list. The position is unchanged; the remaining length shrinks.
    #[verifier::rlimit(60)]
    pub fn remove(&mut self) -> (r: Option<T>)
        requires
            old(self).wf(),
        ensures
            final(self).wf(),
            final(self).pos() == old(self).pos(),
            old(self).pos() == old(self)@.len() ==> r is None && final(self)@ == old(self)@,
            old(self).pos() < old(self)@.len() ==> r == Some(old(self)@[old(self).pos()])
                && final(self)@ == old(self)@.remove(old(self).pos()),
    {
        match self.read_slot() {
            None => None,
            Some(j) => {
                proof {
                    assert(j == self.list.order@[self.pos()]);
                }
                let node = &mut self.list.nodes[j];
                let v = node.value.take();
                let nxt = node.next;
                self.write_slot(nxt);
                self.list.len = self.list.len - 1;
                self.list.order = Ghost(old(self).list.order@.remove(old(self).pos()));
                proof {
                    let ord = old(self).list.order@;
                    let ordn = self.list.order@;
                    let p = old(self).pos();
                    ord.remove_ensures(p);
                    assert forall|i: int| 0 <= i < ordn.len() implies {
                        &&& (#[trigger] ordn[i]) < self.list.nodes@.len()
                        &&& self.list.nodes@[ordn[i] as int].next == link_of(ordn, i + 1)
                        &&& self.list.nodes@[ordn[i] as int].value is Some
                        &&& self@[i] == old(self)@.remove(p)[i]
                    } by {
                        if i < p {
                            assert(ordn[i] == ord[i]);
                            assert(ord[i] != ord[p]);
                            if i < p - 1 {
                                assert(ordn[i + 1] == ord[i + 1]);
                                assert(old(self).list.nodes@[ord[i] as int].next == link_of(
                                    ord,
                                    i + 1,
                                ));
                            } else {
                                assert(old(self).list.nodes@[ord[p] as int].next == link_of(
                                    ord,
                                    p + 1,
                                ));
                                if p + 1 < ord.len() {
                                    assert(ordn[p] == ord[p + 1]);
                                }
                            }
                        } else {
                            assert(ordn[i] == ord[i + 1]);
                            assert(ord[i + 1] != ord[p]);
                            assert(old(self).list.nodes@[ord[i + 1] as int].next == link_of(
                                ord,
                                i + 2,
                            ));
                            if i + 1 < ordn.len() {
                                assert(ordn[i + 1] == ord[i + 2]);
                            }
                        }
                    }
                    assert forall|i: int, j2: int| 0 <= i < j2 < ordn.len() implies ordn[i]
                        != ordn[j2] by {
                        let i0: int = if i < p { i } else { i + 1 };
                        let j0: int = if j2 < p { j2 } else { j2 + 1 };
                        assert(ordn[i] == ord[i0]);
                        assert(ordn[j2] == ord[j0]);
                    }
                    assert(self.wf());
                    assert(self@ =~= old(self)@.remove(p));
                    assert(v == Some(old(self)@[p]));
                }
                v
            },
        }
    }

    /// Cut the chain at the cursor: the slot becomes the end of the list,
    /// and everything it used to own moves into a brand-new list, whose
    /// length is the cursor's pre-cut remaining length.
    #[verifier::rlimit(60)]
    pub fn truncate(&mut self) -> (r: List<T>)
        requires
            old(self).wf(),
        ensures
            final(self).wf(),
            final(self).pos() == old(self).pos(),
            final(self)@ == old(self)@.take(old(self).pos()),
            r.wf(),
            r@ == old(self)@.skip(old(self).pos()),
    {
        let ghost ord = old(self).list.order@;
        let ghost p = old(self).pos();
        let ghost n = ord.len() as int;
        let tail_len = self.list.len - self.position;
        let mut new_nodes: Vec<Node<T>> = Vec::new();
        let mut cur = self.read_slot();
        let mut moved: usize = 0;
        proof {
            assert forall|i: int| 0 <= i < n implies self@[i] == self.list.nodes@[(
            #[trigger] ord[i]) as int].value.unwrap() by {}
        }
        while cur.is_some()
            invariant
                old(self).wf(),
                ord == old(self).list.order@,
                p == old(self).pos(),
                n == ord.len(),
                tail_len == n - p,
                moved <= n - p,
                cur == link_of(ord, p + moved),
                self.position == old(self).position,
                self.prev == old(self).prev,
                self.list.head == old(self).list.head,
                self.list.len == old(self).list.len,
                self.list.order == old(self).list.order,
                self.list.nodes@.len() == old(self).list.nodes@.len(),
                forall|i: int|
                    0 <= i < n && (i < p || i >= p + moved) ==> self.list.nodes@[(
                    #[trigger] ord[i]) as int] == old(self).list.nodes@[ord[i] as int],
                new_nodes@.len() == moved,
                forall|k: int|
                    0 <= k < moved ==> (#[trigger] new_nodes@[k]).value == old(
                        self,
                    ).list.nodes@[ord[p + k] as int].value,
                forall|k: int|
                    0 <= k < moved ==> (#[trigger] new_nodes@[k]).next == (if p + k + 1 < n {
                        Some((k + 1) as usize)
                    } else {
                        None
                    }),
            decreases n - p - moved,
        {
            let j = cur.unwrap();
            proof {
                assert(j == ord[p + moved]);
                assert(self.list.nodes@[j as int] == old(self).list.nodes@[j as int]);
                assert(old(self).list.nodes@[j as int].next == link_of(ord, p + moved + 1));
                assert forall|i: int| 0 <= i < n && i != p + moved implies (#[trigger] ord[i])
                    != ord[p + moved] by {}
            }
            let node = &mut self.list.nodes[j];
            let v = node.value.take();
            let nxt = node.next;
            cur = nxt;
            let nn = new_nodes.len();
            let nxt_new = if cur.is_some() {
                Some(nn + 1)
            } else {
                None
            };
            new_nodes.push(Node { value: v, next: nxt_new });
            moved = moved + 1;
        }
        proof {
            assert(moved == n - p);
        }
        self.write_slot(None);
        self.list.len = self.position;
        self.list.order = Ghost(ord.take(p));
        let r = List {
            nodes: new_nodes,
            head: if tail_len > 0 {
                Some(0)
            } else {
                None
            },
            len: tail_len,
            order: Ghost(Seq::new((n - p) as nat, |k: int| k as usize)),
        };
        proof {
            let ordn = self.list.order@;
            assert forall|i: int| 0 <= i < p implies {
                &&& ordn[i] == ord[i]
                &&& self.list.nodes@[ordn[i] as int].value == old(self).list.nodes@[ord[i] as int].value
                &&& self.list.nodes@[ordn[i] as int].next == (if i + 1 < p {
                    old(self).list.nodes@[ord[i] as int].next
                } else {
                    None
                })
            } by {
                if i + 1 == p && old(self).prev is Some {
                    assert(ord[p - 1] == old(self).prev.unwrap());
                }
                if i + 1 < p {
                    assert(ord[i] != ord[p - 1]);
                }
            }
            assert forall|i: int| 0 <= i < p implies self.list.nodes@[(#[trigger] ordn[i]) as int].next
                == link_of(ordn, i + 1) by {
                if i + 1 < p {
                    assert(old(self).list.nodes@[ord[i] as int].next == link_of(ord, i + 1));
                }
            }
            assert(self.wf());
            assert(self@ =~= old(self)@.take(p));
            let ordr = r.order@;
            assert forall|k: int| 0 <= k < ordr.len() implies {
                &&& (#[trigger] ordr[k]) < r.nodes@.len()
                &&& r.nodes@[ordr[k] as int].next == link_of(ordr, k + 1)
                &&& r.nodes@[ordr[k] as int].value is Some
            } by {
                assert(ordr[k] == k as usize);
                assert(r.nodes@[k].value == old(self).list.nodes@[ord[p + k] as int].value);
            }
            assert(r.wf());
            assert forall|k: int| 0 <= k < ordr.len() implies r@[k] == old(self)@.skip(p)[k] by {
                assert(r.nodes@[k].value == old(self).list.nodes@[ord[p + k] as int].value);
            }
            assert(r@ =~= old(self)@.skip(p));
        }
        r
    }

    /// Graft all of `tail`'s chain onto the cursor's slot, draining `tail`.
    /// The slot must be empty (the cursor is at the end of its list), which
    /// is the state `truncate` leaves behind; the cursor does not move.
    #[verifier::rlimit(100)]
    fn assign_tail(&mut self, tail: &mut List<T>)
        requires
            old(self).wf(),
            old(self).pos() == old(self)@.len(),
            old(tail).wf(),
            old(self)@.len() + old(tail)@.len() <= usize::MAX,
        ensures
            final(self).wf(),
            final(self).pos() == old(self).pos(),
            final(self)@ == old(self)@ + old(tail)@,
            final(tail).wf(),
            final(tail)@ == Seq::<T>::empty(),
    {
        let ghost p0 = old(self).pos();
        let ghost tord = old(tail).order@;
        let ghost tn = tord.len() as int;
        let mut cur = tail.head;
        let mut last = self.prev;
        let ghost mut k: int = 0;
        proof {
            assert(old(self)@.subrange(0, p0) =~= old(self)@);
            assert(self@ =~= old(self)@ + old(tail)@.subrange(0, 0));
        }
        while cur.is_some()
            invariant
                old(self).wf(),
                old(tail).wf(),
                p0 == old(self).pos(),
                old(self)@.len() == p0,
                tord == old(tail).order@,
                tn == tord.len(),
                p0 + tn <= usize::MAX,
                0 <= k <= tn,
                self.wf(),
                self.list.order@.len() == p0 + k,
                self.position == old(self).position,
                self.prev == old(self).prev,
                self.list.len == p0 + k,
                self@ == old(self)@ + old(tail)@.subrange(0, k),
                forall|i: int|
                    0 <= i < p0 ==> #[trigger] self.list.order@[i] == old(self).list.order@[i],
                last == link_of(self.list.order@, p0 + k - 1),
                tail.head == old(tail).head,
                tail.len == old(tail).len,
                tail.order == old(tail).order,
                tail.nodes@.len() == old(tail).nodes@.len(),
                cur == link_of(tord, k),
                forall|i: int|
                    k <= i < tn ==> tail.nodes@[(#[trigger] tord[i]) as int] == old(
                        tail,
                    ).nodes@[tord[i] as int],
            decreases tn - k,
        {
            let ghost ordc = self.list.order@;
            let j = cur.unwrap();
            proof {
                assert(j == tord[k]);
                assert(tail.nodes@[j as int] == old(tail).nodes@[j as int]);
                assert(old(tail).nodes@[tord[k] as int].next == link_of(tord, k + 1));
                assert(old(tail).nodes@[tord[k] as int].value is Some);
                assert(old(tail)@[k] == old(tail).nodes@[tord[k] as int].value.unwrap());
            }
            let tnode = &mut tail.nodes[j];
            let v = tnode.value.take();
            cur = tnode.next;
            let idx = self.list.nodes.len();
            let ghost nodes_pre = self.list.nodes@;
            let ghost contents_pre = self@;
            proof {
                assert forall|i: int| 0 <= i < ordc.len() implies (#[trigger] ordc[i]) != idx by {}
                if p0 + k > 0 {
                    assert(self.list.nodes@[ordc[p0 + k - 1] as int].next == link_of(
                        ordc,
                        p0 + k,
                    ));
                }
                assert forall|i: int| 0 <= i < ordc.len() implies contents_pre[i] == nodes_pre[(
                #[trigger] ordc[i]) as int].value.unwrap() by {}
            }
            self.list.nodes.push(Node { value: v, next: None });
            match last {
                None => {
                    self.list.head = Some(idx);
                },
                Some(q) => {
                    let lnode = &mut self.list.nodes[q];
                    lnode.next = Some(idx);
                },
            }
            proof {
                assert(self.list.nodes@.len() == nodes_pre.len() + 1);
                assert(self.list.nodes@[idx as int].value == old(tail).nodes@[tord[k] as int].value);
                assert(self.list.nodes@[idx as int].next is None);
                assert forall|i: int| 0 <= i < nodes_pre.len() implies (#[trigger] self.list.nodes@[i]).value
                    == nodes_pre[i].value by {}
                if p0 + k > 0 {
                    let q = ordc[p0 + k - 1];
                    assert(self.list.nodes@[q as int].next == Some(idx));
                    assert forall|i: int| 0 <= i < nodes_pre.len() && i != q implies (
                    #[trigger] self.list.nodes@[i]).next == nodes_pre[i].next by {}
                } else {
                    assert forall|i: int| 0 <= i < nodes_pre.len() implies (
                    #[trigger] self.list.nodes@[i]).next == nodes_pre[i].next by {}
                }
            }
            last = Some(idx);
            self.list.len = self.list.len + 1;
            self.list.order = Ghost(self.list.order@.push(idx));
            proof {
                k = k + 1;
                let ordn = self.list.order@;
                assert forall|i: int| 0 <= i < ordn.len() implies {
                    &&& (#[trigger] ordn[i]) < self.list.nodes@.len()
                    &&& self.list.nodes@[ordn[i] as int].next == link_of(ordn, i + 1)
                    &&& self.list.nodes@[ordn[i] as int].value is Some
                } by {
                    if i < ordn.len() - 1 {
                        assert(ordn[i] == ordc[i]);
                        if i != p0 + k - 2 {
                            assert(ordc[i] != ordc[p0 + k - 2]);
                            assert(self.list.nodes@[ordc[i] as int].next == link_of(ordc, i + 1));
                        }
                    } else {
                        assert(ordn[i] == idx);
                    }
                }
                assert forall|i: int, j2: int| 0 <= i < j2 < ordn.len() implies ordn[i] != ordn[j2]
                    by {
                    if j2 < ordn.len() - 1 {
                        assert(ordn[i] == ordc[i] && ordn[j2] == ordc[j2]);
                    } else {
                        assert(ordn[j2] == idx);
                        assert(ordn[i] == ordc[i]);
                    }
                }
                assert(self.wf());
                assert forall|i: int| 0 <= i < ordn.len() implies self@[i] == (old(self)@ + old(
                    tail,
                )@.subrange(0, k))[i] by {
                    if i < ordn.len() - 1 {
                        assert(ordn[i] == ordc[i]);
                        assert(ordc[i] != idx);
                        assert(self.list.nodes@[ordn[i] as int].value == nodes_pre[ordc[i] as int].value);
                        assert(self@[i] == contents_pre[i]);
                        assert(contents_pre[i] == (old(self)@ + old(tail)@.subrange(0, k - 1))[i]);
                    } else {
                        assert(ordn[i] == idx);
                        assert(self@[i] == old(tail)@[k - 1]);
                    }
                }
                assert(self@ =~= old(self)@ + old(tail)@.subrange(0, k));
            }
        }
        proof {
            assert(k == tn);
            assert(old(tail)@.subrange(0, tn) =~= old(tail)@);
        }
        tail.nodes = Vec::new();
        tail.head = None;
        tail.len = 0;
        tail.order = Ghost(Seq::empty());
        proof {
            assert(tail.wf());
            assert(tail@ =~= Seq::<T>::empty());
        }
    }

    /// Move forward by up to `nth` nodes, in O(min(nth, self.len())).
    /// Returns the number of nodes actually skipped, which is less than
    /// `nth` when the end of the list is reached first.
    pub fn nth(&mut self, nth: usize) -> (r: usize)
        requires
            old(self).wf(),
        ensures
            final(self).wf(),
            final(self)@ == old(self)@,
            r == vstd::math::min(nth as int, old(self)@.len() - old(self).pos()),
            final(self).pos() == old(self).pos() + r,
    {
        let mut nthped: usize = 0;
        while nthped != nth && self.position < self.list.len
            invariant
                self.wf(),
                self@ == old(self)@,
                nthped <= nth,
                self.pos() == old(self).pos() + nthped,
                nthped <= old(self)@.len() - old(self).pos(),
            decreases nth - nthped,
        {
            self.next();
            nthped = nthped + 1;
        }
        nthped
    }

    /// Move forward to just before the last node, in O(self.len() - 1).
    /// Returns the number of nodes skipped; a no-op on an empty tail.
    pub fn last(&mut self) -> (r: usize)
        requires
            old(self).wf(),
        ensures
            final(self).wf(),
            final(self)@ == old(self)@,
            old(self).pos() == old(self)@.len() ==> r == 0 && final(self).pos() == old(self).pos(),
            old(self).pos() < old(self)@.len() ==> r == old(self)@.len() - 1 - old(self).pos()
                && final(self).pos() == old(self)@.len() - 1,
    {
        let rem = self.len();
        if rem == 0 {
            0
        } else {
            self.nth(rem - 1)
        }
    }

    /// Move the cursor past the end of the list, in O(self.len()).
    /// Returns the number of nodes skipped.
    pub fn end(&mut self) -> (r: usize)
        requires
            old(self).wf(),
        ensures
            final(self).wf(),
            final(self)@ == old(self)@,
            r == old(self)@.len() - old(self).pos(),
            final(self).pos() == final(self)@.len(),
    {
        let rem = self.len();
        self.nth(rem)
    }
}

impl<T> Cursor<T> {
    /// Insert all of `other`'s chain at the cursor position, draining
    /// `other`. The cursor ends up after the spliced-in run, facing the same
    /// element it faced before. O(other.len()), from walking the grafted
    /// run; the walk is needed even when nothing follows the cursor.
    pub fn splice(&mut self, other: &mut List<T>)
        requires
            old(self).wf(),
            old(other).wf(),
            old(self)@.len() + old(other)@.len() <= usize::MAX,
        ensures
            final(self).wf(),
            final(self)@ == old(self)@.take(old(self).pos()) + old(other)@ + old(self)@.skip(
                old(self).pos(),
            ),
            final(self).pos() == old(self).pos() + old(other)@.len(),
            final(other).wf(),
            final(other)@ == Seq::<T>::empty(),
    {
        let mut tail = self.truncate();
        self.assign_tail(other);
        self.end();
        self.assign_tail(&mut tail);
        proof {
            let p = old(self).pos();
            assert(old(self)@.take(p).take(p) =~= old(self)@.take(p));
        }
    }

    /// Detach everything more than `after` nodes past the cursor, in
    /// O(min(after, self.len())). The cursor itself does not move.
    pub fn split(&mut self, after: usize) -> (r: List<T>)
        requires
            old(self).wf(),
        ensures
            final(self).wf(),
            final(self).pos() == old(self).pos(),
            ({
                let k = vstd::math::min(after as int, old(self)@.len() - old(self).pos());
                &&& final(self)@ == old(self)@.take(old(self).pos() + k)
                &&& r.wf()
                &&& r@ == old(self)@.skip(old(self).pos() + k)
            }),
    {
        let mut c = self.checkpoint();
        c.nth(after);
        let r = c.truncate();
        self.restore(c);
        r
    }

    /// Remove exactly `min(count, self.len())` nodes starting at the
    /// cursor, returning them as a new list; the chain closes back up
    /// around the gap and the cursor does not move.
    pub fn remove_n(&mut self, count: usize) -> (r: List<T>)
        requires
            old(self).wf(),
        ensures
            final(self).wf(),
            final(self).pos() == old(self).pos(),
            ({
                let k = vstd::math::min(count as int, old(self)@.len() - old(self).pos());
                &&& final(self)@ == old(self)@.take(old(self).pos()) + old(self)@.skip(
                    old(self).pos() + k,
                )
                &&& r.wf()
                &&& r@ == old(self)@.subrange(old(self).pos(), old(self).pos() + k)
            }),
    {
        let mut tail = self.split(count);
        let removed = self.truncate();
        self.assign_tail(&mut tail);
        proof {
            let p = old(self).pos();
            let k = vstd::math::min(count as int, old(self)@.len() - p);
            assert(old(self)@.take(p + k).take(p) =~= old(self)@.take(p));
            assert(old(self)@.take(p + k).skip(p) =~= old(self)@.subrange(p, p + k));
        }
        removed
    }

    /// A second cursor over the same chain and at the same position,
    /// freezing `self`: the parent gives the list up and must not be used
    /// again until [`Cursor::restore`] hands a cursor back. Using a frozen
    /// cursor is an access-discipline violation; at run time it fails
    /// loudly (the frozen cursor behaves as if over an empty list and
    /// panics on its bookkeeping), and no well-formedness proof is
    /// available for it.
    pub fn checkpoint(&mut self) -> (c: Cursor<T>)
        requires
            old(self).wf(),
        ensures
            c.wf(),
            c@ == old(self)@,
            c.pos() == old(self).pos(),
            final(self).pos() == old(self).pos(),
    {
        let mut stolen = List::new();
        core::mem::swap(&mut self.list, &mut stolen);
        Cursor { list: stolen, prev: self.prev, position: self.position }
    }

    /// Take the list back from a checkpoint cursor (or any cursor over a
    /// list at least as long as this cursor's position), unfreezing `self`
    /// at its old position.
    pub fn restore(&mut self, c: Cursor<T>)
        requires
            c.wf(),
            old(self).pos() <= c@.len(),
        ensures
            final(self).wf(),
            final(self)@ == c@,
            final(self).pos() == old(self).pos(),
    {
        let l = c.finish();
        let p = self.position;
        let mut prev: Option<usize> = None;
        let mut i: usize = 0;
        while i < p
            invariant
                l.wf(),
                p == old(self).pos(),
                p <= l@.len(),
                i <= p,
                prev == (if i == 0 {
                    None::<usize>
                } else {
                    Some(l.order@[i - 1])
                }),
            decreases p - i,
        {
            proof {
                assert(link_of(l.order@, i as int) == Some(l.order@[i as int]));
                if i > 0 {
                    assert(l.nodes@[l.order@[i - 1] as int].next == link_of(l.order@, i as int));
                }
            }
            let j = match prev {
                None => l.head.unwrap(),
                Some(q) => l.nodes[q].next.unwrap(),
            };
            prev = Some(j);
            i = i + 1;
        }
        self.list = l;
        self.prev = prev;
        proof {
            assert(self.wf());
        }
    }
}

/// Adapter that owns a cursor and yields it repeatedly: unmoved on the
/// first step, auto-advanced on every later one, so a single loop can both
/// inspect and structurally edit the chain.
pub struct CursorIntoIter<T> {
    pub(crate) cursor: Cursor<T>,
    pub(crate) first: bool,
}

impl<T> CursorIntoIter<T> {
    /// The cursor the adapter drives.
    pub open(crate) spec fn inner(&self) -> Cursor<T> {
        self.cursor
    }

    /// Whether the next step is the initial, non-advancing one.
    pub open(crate) spec fn at_start(&self) -> bool {
        self.first
    }

    /// Advance (except on the first step) and yield the cursor, or `None`
    /// once the cursor has gone past the last node.
    pub fn next(&mut self) -> (r: Option<&mut Cursor<T>>)
        requires
            old(self).inner().wf(),
        ensures
            ({
                let oc = old(self).inner();
                let stepped = if old(self).at_start() {
                    oc.pos()
                } else if oc.pos() < oc@.len() {
                    oc.pos() + 1
                } else {
                    oc.pos()
                };
                match r {
                    Some(c) => {
                        &&& old(self).at_start() || stepped < oc@.len()
                        &&& c.wf()
                        &&& c@ == oc@
                        &&& c.pos() == stepped
                        &&& final(self).inner() == *final(c)
                        &&& !final(self).at_start()
                    },
                    None => {
                        &&& !old(self).at_start()
                        &&& stepped == oc@.len()
                        &&& final(self).inner().wf()
                        &&& final(self).inner()@ == oc@
                        &&& final(self).inner().pos() == stepped
                        &&& !final(self).at_start()
                    },
                }
            }),
    {
        if !self.first {
            let moved = self.cursor.next();
            if !moved {
                return None;
            }
        }
        self.first = false;
        Some(&mut self.cursor)
    }

    /// Stop iterating and take the cursor back.
    pub fn into_cursor(self) -> (c: Cursor<T>)
        ensures
            c == self.inner(),
    {
        self.cursor
    }

    /// The number of elements still in front of the cursor.
    pub fn size_hint(&self) -> (r: usize)
        requires
            self.inner().wf(),
        ensures
            r == self.inner()@.len() - self.inner().pos(),
    {
        self.cursor.len()
    }
}

impl<T> Cursor<T> {
    /// Turn the cursor into an adapter that yields it repeatedly,
    /// advancing it on every step after the first.
    pub fn into_iter(self) -> (it: CursorIntoIter<T>)
        ensures
            it.inner() == self,
            it.at_start(),
    {
        CursorIntoIter { cursor: self, first: true }
    }
}

/// Adapter that drives a borrowed cursor the same way [`CursorIntoIter`]
/// drives an owned one: the cursor is handed in afresh on every step, so
/// the caller keeps using it between steps.
pub struct CursorIterMut {
    pub(crate) first: bool,
}

impl CursorIterMut {
    /// Whether the next step is the initial, non-advancing one.
    pub open(crate) spec fn at_start(&self) -> bool {
        self.first
    }

    /// Advance `c` (except on the first step). Returns whether the loop
    /// should visit the cursor's current position.
    pub fn next<T>(&mut self, c: &mut Cursor<T>) -> (r: bool)
        requires
            old(c).wf(),
        ensures
            final(c).wf(),
            final(c)@ == old(c)@,
            !final(self).at_start(),
            final(c).pos() == if old(self).at_start() {
                old(c).pos()
            } else if old(c).pos() < old(c)@.len() {
                old(c).pos() + 1
            } else {
                old(c).pos()
            },
            r == (old(self).at_start() || final(c).pos() < old(c)@.len()),
    {
        if self.first {
            self.first = false;
            return true;
        }
        c.next()
    }

    /// The number of elements still in front of the cursor being driven.
    pub fn size_hint<T>(&self, c: &Cursor<T>) -> (r: usize)
        requires
            c.wf(),
        ensures
            r == c@.len() - c.pos(),
    {
        c.len()
    }
}

impl<T> Cursor<T> {
    /// A step adapter for visiting this cursor in a loop; pass the cursor
    /// to [`CursorIterMut::next`] on every step.
    pub fn iter_mut(&self) -> (it: CursorIterMut)
        ensures
            it.at_start(),
    {
        CursorIterMut { first: true }
    }
}

impl<T> View for Cursor<T> {
    type V = Seq<T>;

    open spec fn view(&self) -> Seq<T> {
        self.contents()
    }
}

} // verus!
