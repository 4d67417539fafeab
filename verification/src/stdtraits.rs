use crate::cursor::Cursor;
use crate::list::{link_of, List};
use vstd::prelude::*;

verus! {

impl<T: Clone> List<T> {
    /// Walk the chain front to back, appending a clone of each element to
    /// `c`, which must sit at the end of an empty list. Steps defensively —
    /// `Clone::clone` admits no precondition, so the walk gives up rather
    /// than trust a link it cannot check — and on a well-formed list it
    /// reproduces every element.
    fn clone_into_cursor(&self, c: &mut Cursor<T>)
        requires
            old(c).wf(),
            old(c)@.len() == 0,
            old(c).pos() == 0,
        ensures
            final(c).wf(),
            self.wf() ==> {
                &&& final(c)@.len() == self@.len()
                &&& forall|i: int|
                    0 <= i < self@.len() ==> cloned::<T>(self@[i], #[trigger] final(c)@[i])
            },
    {
        let mut cur = self.head;
        let mut steps: usize = 0;
        loop
            invariant
                c.wf(),
                c@.len() == steps,
                c.pos() == steps,
                steps <= self.len,
                self.wf() ==> {
                    &&& cur == link_of(self.order@, steps as int)
                    &&& steps <= self@.len()
                    &&& forall|i: int| 0 <= i < steps ==> cloned::<T>(self@[i], #[trigger] c@[i])
                },
            ensures
                c.wf(),
                c@.len() == steps,
                self.wf() ==> {
                    &&& steps == self@.len()
                    &&& forall|i: int| 0 <= i < steps ==> cloned::<T>(self@[i], #[trigger] c@[i])
                },
            decreases self.len - steps,
        {
            if steps >= self.len {
                break ;
            }
            let j = match cur {
                None => {
                    break ;
                },
                Some(j) => j,
            };
            if j >= self.nodes.len() {
                break ;
            }
            proof {
                if self.wf() {
                    assert(j == self.order@[steps as int]);
                    assert(self@[steps as int] == self.nodes@[self.order@[steps as int] as int].value.unwrap());
                    assert(self.nodes@[self.order@[steps as int] as int].next == link_of(
                        self.order@,
                        steps + 1,
                    ));
                }
            }
            match &self.nodes[j].value {
                None => {
                    break ;
                },
                Some(v) => {
                    c.insert(v.clone());
                },
            }
            cur = self.nodes[j].next;
            steps = steps + 1;
        }
    }
}

/// Clone a list in O(n).
///
/// `clone_from` reuses the arena's allocation instead of making a fresh
/// one.
impl<T: Clone> Clone for List<T> {
    fn clone(&self) -> (r: Self)
        ensures
            r.wf(),
            self.wf() ==> {
                &&& r@.len() == self@.len()
                &&& forall|i: int| 0 <= i < self@.len() ==> cloned::<T>(self@[i], #[trigger] r@[i])
            },
    {
        let mut c = List::new().cursor();
        self.clone_into_cursor(&mut c);
        c.finish()
    }

    fn clone_from(&mut self, source: &Self)
        ensures
            final(self).wf(),
            source.wf() ==> {
                &&& final(self)@.len() == source@.len()
                &&& forall|i: int|
                    0 <= i < source@.len() ==> cloned::<T>(source@[i], #[trigger] final(self)@[i])
            },
    {
        self.reset_keeping_arena();
        let mut tmp = List::new();
        core::mem::swap(self, &mut tmp);
        let mut c = tmp.cursor();
        source.clone_into_cursor(&mut c);
        let mut done = c.finish();
        core::mem::swap(self, &mut done);
    }
}

} // verus!
