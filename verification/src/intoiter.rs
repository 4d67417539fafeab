use crate::list::List;
use vstd::prelude::*;

verus! {

/// Iterator consuming a list: it owns the list and pops the front on each
/// step.
pub struct ListIntoIter<T> {
    pub(crate) list: List<T>,
}

impl<T> ListIntoIter<T> {
    /// The elements not yet yielded.
    pub open(crate) spec fn remaining(&self) -> Seq<T> {
        self.list@
    }

    pub open(crate) spec fn wf(&self) -> bool {
        self.list.wf()
    }

    /// The next element, front to back, or `None` once exhausted.
    pub fn next(&mut self) -> (r: Option<T>)
        requires
            old(self).wf(),
        ensures
            final(self).wf(),
            old(self).remaining().len() == 0 ==> r is None && final(self).remaining() == old(
                self,
            ).remaining(),
            old(self).remaining().len() > 0 ==> r == Some(old(self).remaining()[0])
                && final(self).remaining() == old(self).remaining().drop_first(),
    {
        self.list.pop_front()
    }
}

impl<T> List<T> {
    /// Turn the list into a consuming iterator.
    pub fn into_iter(self) -> (it: ListIntoIter<T>)
        requires
            self.wf(),
        ensures
            it.wf(),
            it.remaining() == self@,
    {
        ListIntoIter { list: self }
    }
}

} // verus!
