use crate::list::{link_of, List};
use vstd::prelude::*;

verus! {

/// Read-only iterator over a list: a shared borrow of the list plus the
/// link the iteration has reached.
pub struct ListIter<'a, T> {
    pub(crate) list: &'a List<T>,
    pub(crate) cur: Option<usize>,
    pub(crate) index: Ghost<int>,
}

impl<'a, T> ListIter<'a, T> {
    /// The elements the iterator walks over.
    pub open(crate) spec fn elems(&self) -> Seq<T> {
        self.list@
    }

    /// How many elements have been yielded so far.
    pub open(crate) spec fn idx(&self) -> int {
        self.index@
    }

    pub open(crate) spec fn wf(&self) -> bool {
        &&& self.list.wf()
        &&& 0 <= self.index@ <= self.list@.len()
        &&& self.cur == link_of(self.list.order@, self.index@)
    }

    /// The next element, front to back, or `None` once exhausted.
    pub fn next(&mut self) -> (r: Option<&'a T>)
        requires
            old(self).wf(),
        ensures
            final(self).wf(),
            final(self).elems() == old(self).elems(),
            old(self).idx() == old(self).elems().len() ==> r is None && final(self).idx() == old(
                self,
            ).idx(),
            old(self).idx() < old(self).elems().len() ==> (match r {
                Some(v) => *v == old(self).elems()[old(self).idx()],
                None => false,
            }) && final(self).idx() == old(self).idx() + 1,
    {
        match self.cur {
            None => None,
            Some(j) => {
                proof {
                    let ord = self.list.order@;
                    let i = self.index@;
                    assert(j == ord[i]);
                    assert(self.list.nodes@[ord[i] as int].next == link_of(ord, i + 1));
                    assert(self.elems()[i] == self.list.nodes@[ord[i] as int].value.unwrap());
                }
                let node = &self.list.nodes[j];
                self.cur = node.next;
                self.index = Ghost(self.index@ + 1);
                node.value.as_ref()
            },
        }
    }
}

impl<'a, T> Clone for ListIter<'a, T> {
    /// An independent iterator at the same point of the same list.
    fn clone(&self) -> (r: Self)
        ensures
            r == *self,
    {
        ListIter { list: self.list, cur: self.cur, index: Ghost(self.index@) }
    }
}

impl<T> List<T> {
    /// An iterator over the list yielding read-only references.
    pub fn iter<'a>(&'a self) -> (it: ListIter<'a, T>)
        requires
            self.wf(),
        ensures
            it.wf(),
            it.elems() == self@,
            it.idx() == 0,
    {
        ListIter { list: self, cur: self.head, index: Ghost(0) }
    }
}

} // verus!
