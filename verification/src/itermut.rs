use crate::cursor::Cursor;
use crate::list::{link_of, List};
use vstd::prelude::*;

verus! {

/// Mutable iterator over a list. It owns the list through a cursor and
/// hands it back through [`ListIterMut::finish`]; besides yielding mutable
/// references it supports a few structural edits at the point reached.
pub struct ListIterMut<T> {
    pub(crate) c: Cursor<T>,
}

impl<T> ListIterMut<T> {
    /// The elements of the underlying list.
    pub open(crate) spec fn elems(&self) -> Seq<T> {
        self.c@
    }

    /// How many elements have been yielded so far.
    pub open(crate) spec fn idx(&self) -> int {
        self.c.pos()
    }

    pub open(crate) spec fn wf(&self) -> bool {
        self.c.wf()
    }

    /// Give the underlying list back.
    pub fn finish(self) -> (l: List<T>)
        requires
            self.wf(),
        ensures
            l.wf(),
            l@ == self.elems(),
    {
        self.c.finish()
    }

    /// Turn the iterator into a cursor at the point reached.
    pub fn into_cursor(self) -> (c: Cursor<T>)
        requires
            self.wf(),
        ensures
            c.wf(),
            c@ == self.elems(),
            c.pos() == self.idx(),
    {
        self.c
    }

    /// The next element, front to back, or `None` once exhausted.
    /// The element stays in the list; the reference lets the caller edit it
    /// in place.
    pub fn next(&mut self) -> (r: Option<&mut T>)
        requires
            old(self).wf(),
        ensures
            old(self).idx() == old(self).elems().len() ==> r is None && *final(self) == *old(self),
            old(self).idx() < old(self).elems().len() ==> (match r {
                Some(v) => {
                    &&& *v == old(self).elems()[old(self).idx()]
                    &&& final(self).elems() =~= old(self).elems().update(old(self).idx(), *final(v))
                    &&& final(self).idx() == old(self).idx() + 1
                    &&& final(self).wf()
                },
                None => false,
            }),
    {
        match self.c.read_slot() {
            None => None,
            Some(j) => {
                proof {
                    let ord = self.c.list.order@;
                    let p = self.c.pos();
                    assert(j == ord[p]);
                    assert(ord[p] < self.c.list.nodes@.len());
                    assert forall|i: int| 0 <= i < ord.len() && i != p implies ord[p] != (
                    #[trigger] ord[i]) by {}
                    assert forall|i: int| 0 <= i < ord.len() implies self.elems()[i]
                        == self.c.list.nodes@[(#[trigger] ord[i]) as int].value.unwrap() by {}
                    assert(self.elems().len() == ord.len());
                }
                self.c.prev = Some(j);
                self.c.position = self.c.position + 1;
                let node = &mut self.c.list.nodes[j];
                node.value.as_mut()
            },
        }
    }

    /// A reference to the next element, without moving the iterator.
    pub fn peek_next(&self) -> (r: Option<&T>)
        requires
            self.wf(),
        ensures
            self.idx() < self.elems().len() ==> (match r {
                Some(v) => *v == self.elems()[self.idx()],
                None => false,
            }),
            self.idx() >= self.elems().len() ==> r is None,
    {
        self.c.value()
    }

    /// A mutable reference to the next element, without moving the
    /// iterator.
    pub fn peek_next_mut(&mut self) -> (r: Option<&mut T>)
        requires
            old(self).wf(),
        ensures
            old(self).idx() >= old(self).elems().len() ==> r is None && *final(self) == *old(self),
            old(self).idx() < old(self).elems().len() ==> (match r {
                Some(v) => {
                    &&& *v == old(self).elems()[old(self).idx()]
                    &&& final(self).elems() =~= old(self).elems().update(old(self).idx(), *final(v))
                    &&& final(self).idx() == old(self).idx()
                    &&& final(self).wf()
                },
                None => false,
            }),
    {
        self.c.value_mut()
    }

    /// Insert `v` just after the point reached, in O(1); the inserted
    /// element does not appear in the remaining iteration.
    pub fn insert_next(&mut self, v: T)
        requires
            old(self).wf(),
            old(self).elems().len() < usize::MAX,
        ensures
            final(self).wf(),
            final(self).elems() == old(self).elems().insert(old(self).idx(), v),
            final(self).idx() == old(self).idx() + 1,
    {
        self.c.insert(v);
    }

    /// Remove the element just after the point reached, in O(1).
    /// Returns the removed value, or `None` at the end of the list.
    pub fn remove_next(&mut self) -> (r: Option<T>)
        requires
            old(self).wf(),
        ensures
            final(self).wf(),
            final(self).idx() == old(self).idx(),
            old(self).idx() == old(self).elems().len() ==> r is None && final(self).elems() == old(
                self,
            ).elems(),
            old(self).idx() < old(self).elems().len() ==> r == Some(
                old(self).elems()[old(self).idx()],
            ) && final(self).elems() == old(self).elems().remove(old(self).idx()),
    {
        self.c.remove()
    }

    /// Cut the list right after the point reached, in O(1): the iterator is
    /// exhausted afterwards, and everything after the point moves into the
    /// returned list.
    pub fn truncate_next(&mut self) -> (r: List<T>)
        requires
            old(self).wf(),
        ensures
            final(self).wf(),
            final(self).idx() == old(self).idx(),
            final(self).elems() == old(self).elems().take(old(self).idx()),
            r.wf(),
            r@ == old(self).elems().skip(old(self).idx()),
    {
        self.c.truncate()
    }
}

impl<T> List<T> {
    /// A mutable iterator over the list, front to back. The iterator takes
    /// the list over; [`ListIterMut::finish`] returns it.
    pub fn iter_mut(self) -> (it: ListIterMut<T>)
        requires
            self.wf(),
        ensures
            it.wf(),
            it.elems() == self@,
            it.idx() == 0,
    {
        ListIterMut { c: self.cursor() }
    }
}

} // verus!
