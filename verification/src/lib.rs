//! A simple forward linked list with a cursor.
//!
//! The chain is kept in an arena: nodes live in contiguous storage and link
//! to one another by index, so every structural edit is plain index
//! rebinding, and dropping a long list never recurses.
//!
//! A [`Cursor`] is a movable access point into the chain. It owns the list
//! while it is alive and hands it back through `finish`, which models "one
//! exclusive writer into a given suffix of the chain at a time" without
//! holding interior mutable references.

mod cursor;
mod intoiter;
mod iter;
mod itermut;
mod laws;
mod list;
mod ops;
mod stdtraits;

pub use cursor::Cursor;
pub use cursor::CursorIntoIter;
pub use cursor::CursorIterMut;
pub use intoiter::ListIntoIter;
pub use iter::ListIter;
pub use itermut::ListIterMut;
pub use laws::lemma_cursor_position_invariant;
pub use laws::lemma_insert_then_back_one_sees_value;
pub use laws::lemma_list_len_counts_reachable_nodes;
pub use laws::lemma_truncate_splice_round_trip;
pub use list::List;
