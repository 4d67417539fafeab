use crate::list::{link_of, List};
use vstd::prelude::*;

verus! {

impl<T> List<T> {
    /// The arena index of the `i`-th node of the chain, found by walking
    /// the links from the head, in O(i).
    fn node_at(&self, i: usize) -> (j: usize)
        requires
            self.wf(),
            i < self@.len(),
        ensures
            j == self.order@[i as int],
            j < self.nodes@.len(),
    {
        proof {
            assert(self.head == link_of(self.order@, 0));
        }
        let mut j = self.head.unwrap();
        let mut k: usize = 0;
        while k < i
            invariant
                self.wf(),
                i < self.order@.len(),
                k <= i,
                j == self.order@[k as int],
            decreases i - k,
        {
            proof {
                assert(self.nodes@[self.order@[k as int] as int].next == link_of(
                    self.order@,
                    k + 1,
                ));
            }
            j = self.nodes[j].next.unwrap();
            k = k + 1;
        }
        j
    }

    /// A reference to the last element, or `None` if the list is empty.
    /// O(n): walks the chain to its end.
    pub fn back(&self) -> (r: Option<&T>)
        requires
            self.wf(),
        ensures
            self@.len() == 0 ==> r is None,
            self@.len() > 0 ==> (match r {
                Some(v) => *v == self@[self@.len() - 1],
                None => false,
            }),
    {
        if self.len == 0 {
            None
        } else {
            let j = self.node_at(self.len - 1);
            proof {
                let ord = self.order@;
                let n = ord.len() as int;
                assert(self@[n - 1] == self.nodes@[ord[n - 1] as int].value.unwrap());
            }
            self.nodes[j].value.as_ref()
        }
    }

    /// A mutable reference to the last element, or `None` if the list is
    /// empty. O(n): walks the chain to its end.
    pub fn back_mut(&mut self) -> (r: Option<&mut T>)
        requires
            old(self).wf(),
        ensures
            old(self)@.len() == 0 ==> r is None && *final(self) == *old(self),
            old(self)@.len() > 0 ==> (match r {
                Some(v) => {
                    &&& *v == old(self)@[old(self)@.len() - 1]
                    &&& final(self)@ =~= old(self)@.update(old(self)@.len() - 1, *final(v))
                    &&& final(self).wf()
                },
                None => false,
            }),
    {
        if self.len == 0 {
            None
        } else {
            let j = self.node_at(self.len - 1);
            proof {
                let ord = self.order@;
                let n = ord.len() as int;
                assert(j == ord[n - 1]);
                assert forall|i: int| 0 <= i < n && i != n - 1 implies ord[n - 1] != (
                #[trigger] ord[i]) by {}
                assert forall|i: int| 0 <= i < n implies self@[i] == self.nodes@[(
                #[trigger] ord[i]) as int].value.unwrap() by {}
                assert(self@.len() == n);
            }
            let node = &mut self.nodes[j];
            node.value.as_mut()
        }
    }

    /// Push an element at the end of the list, in O(n).
    pub fn push_back(&mut self, v: T)
        requires
            old(self).wf(),
            old(self)@.len() < usize::MAX,
        ensures
            final(self).wf(),
            final(self)@ == old(self)@.push(v),
    {
        let mut tmp = List::new();
        core::mem::swap(self, &mut tmp);
        let mut c = tmp.cursor();
        c.end();
        c.insert(v);
        let mut done = c.finish();
        core::mem::swap(self, &mut done);
        proof {
            assert(self@ =~= old(self)@.push(v));
        }
    }

    /// Pop the element at the end of the list, in O(n).
    /// Returns `None` if the list is empty.
    pub fn pop_back(&mut self) -> (r: Option<T>)
        requires
            old(self).wf(),
        ensures
            final(self).wf(),
            old(self)@.len() == 0 ==> r is None && final(self)@ == old(self)@,
            old(self)@.len() > 0 ==> r == Some(old(self)@.last()) && final(self)@ == old(
                self,
            )@.drop_last(),
    {
        if self.len == 0 {
            return None;
        }
        let mut tmp = List::new();
        core::mem::swap(self, &mut tmp);
        let mut c = tmp.cursor();
        let n = c.len();
        c.nth(n - 1);
        let r = c.remove();
        let mut done = c.finish();
        core::mem::swap(self, &mut done);
        proof {
            assert(self@ =~= old(self)@.drop_last());
        }
        r
    }

    /// Move all elements of `other` to the end of the list, in
    /// O(self.len() + other.len()); `other` is left empty.
    pub fn append(&mut self, other: &mut List<T>)
        requires
            old(self).wf(),
            old(other).wf(),
            old(self)@.len() + old(other)@.len() <= usize::MAX,
        ensures
            final(self).wf(),
            final(self)@ == old(self)@ + old(other)@,
            final(other).wf(),
            final(other)@ == Seq::<T>::empty(),
    {
        let mut tmp = List::new();
        core::mem::swap(self, &mut tmp);
        let mut c = tmp.cursor();
        c.end();
        c.splice(other);
        let mut done = c.finish();
        core::mem::swap(self, &mut done);
        proof {
            let n = old(self)@.len() as int;
            assert(old(self)@.take(n) =~= old(self)@);
            assert(old(self)@.skip(n) =~= Seq::<T>::empty());
            assert(old(self)@ + old(other)@ + Seq::<T>::empty() =~= old(self)@ + old(other)@);
        }
    }

    /// Split the list in two at index `at`, in O(at): everything from
    /// index `at` onward moves into the returned list. The index must not
    /// exceed the length.
    pub fn split_off(&mut self, at: usize) -> (r: List<T>)
        requires
            old(self).wf(),
            at <= old(self)@.len(),
        ensures
            final(self).wf(),
            final(self)@ == old(self)@.take(at as int),
            r.wf(),
            r@ == old(self)@.skip(at as int),
    {
        let mut tmp = List::new();
        core::mem::swap(self, &mut tmp);
        let mut c = tmp.cursor();
        c.nth(at);
        let r = c.truncate();
        let mut done = c.finish();
        core::mem::swap(self, &mut done);
        r
    }
}

} // verus!
