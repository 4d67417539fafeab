use crate::cursor::Cursor;
use crate::list::{link_of, List};
use vstd::prelude::*;

verus! {

/// The number of nodes reachable from `link` by following `next` links, if
/// that walk ends within `fuel` steps and stays inside the arena; `None`
/// if it does not.
pub open(crate) spec fn chain_len<T>(l: &List<T>, link: Option<usize>, fuel: nat) -> Option<nat>
    decreases fuel,
{
    match link {
        None => Some(0),
        Some(j) => {
            if fuel == 0 || j >= l.nodes@.len() {
                None
            } else {
                match chain_len(l, l.nodes@[j as int].next, (fuel - 1) as nat) {
                    None => None,
                    Some(n) => Some(n + 1),
                }
            }
        },
    }
}

/// The number of nodes reachable from the list's head link within `fuel`
/// steps.
pub open(crate) spec fn reachable_from_head<T>(l: &List<T>, fuel: nat) -> Option<nat> {
    chain_len(l, l.head, fuel)
}

/// Following the links from position `i` of a well-formed chain reaches
/// exactly the remaining `len - i` nodes.
proof fn lemma_chain_len_from<T>(l: &List<T>, i: int)
    requires
        l.wf(),
        0 <= i <= l.order@.len(),
    ensures
        chain_len(l, link_of(l.order@, i), (l.order@.len() - i) as nat) == Some(
            (l.order@.len() - i) as nat,
        ),
    decreases l.order@.len() - i,
{
    let ord = l.order@;
    if i < ord.len() {
        lemma_chain_len_from(l, i + 1);
        assert(l.nodes@[ord[i] as int].next == link_of(ord, i + 1));
    }
}

/// Law: the cached length of a well-formed list equals the number of nodes
/// actually reachable from its head by following the links — walking the
/// whole chain takes exactly `len` steps and ends at an empty link.
pub proof fn lemma_list_len_counts_reachable_nodes<T>(l: &List<T>)
    requires
        l.wf(),
    ensures
        reachable_from_head(l, l@.len() as nat) == Some(l@.len() as nat),
{
    assert(l.head == link_of(l.order@, 0));
    lemma_chain_len_from(l, 0);
}

/// Law: for every reachable cursor state, `position + len() == total
/// length`: the position never exceeds the total length, so the remaining
/// length that [`Cursor::len`] promises — `self@.len() - self.pos()` — is
/// a plain difference with no underflow, and adding the position back
/// gives the total length.
pub proof fn lemma_cursor_position_invariant<T>(c: &Cursor<T>)
    requires
        c.wf(),
    ensures
        0 <= c.pos() <= c@.len(),
{
}

/// Law: `truncate` followed immediately by `splice` of the returned tail
/// restores the chain's prior content and length exactly. For a cursor at
/// position `p` over contents `s`, `truncate` leaves it over `s.take(p)`
/// and returns the tail `s.skip(p)`; `splice` of that tail at the same
/// position then produces, by its postcondition, the left-hand sequence
/// below — which equals the contents the cursor started from.
pub proof fn lemma_truncate_splice_round_trip<T>(s: Seq<T>, p: int)
    requires
        0 <= p <= s.len(),
    ensures
        s.take(p).take(p) + s.skip(p) + s.take(p).skip(p) == s,
{
    assert(s.take(p).take(p) + s.skip(p) + s.take(p).skip(p) =~= s);
}

/// Law: inserting `v` at a cursor and then stepping one position back —
/// as a checkpoint advanced to the cursor's pre-insert position provides —
/// shows exactly `v`: `insert` at position `p` turns contents `s` into
/// `s.insert(p, v)` and moves the cursor to `p + 1`, and at position `p`
/// the new chain holds `v`.
pub proof fn lemma_insert_then_back_one_sees_value<T>(s: Seq<T>, p: int, v: T)
    requires
        0 <= p <= s.len(),
    ensures
        s.insert(p, v)[p] == v,
{
    s.insert_ensures(p, v);
}

} // verus!
