//! A reference model of the history: replaying add / remove-by-handle / clear
//! operations over a plain sequence. The store is proved to track this model
//! step for step, and the model carries the laws that hold of any operation
//! sequence.

use vstd::prelude::*;
use crate::history::remove_handle;

verus! {

/// One structural operation on the history.
pub enum HistoryOp {
    /// Append a snippet at the end under the next fresh handle.
    Add(String),
    /// Remove the snippet carrying this handle, if any.
    RemoveAt(u64),
    /// Empty the history.
    Clear,
}

/// The model entries after one operation: append at the end under the fresh
/// handle `next`, remove by handle, or empty the sequence.
pub open spec fn step_entries(
    m: Seq<(u64, Seq<char>)>,
    next: u64,
    op: HistoryOp,
) -> Seq<(u64, Seq<char>)> {
    match op {
        HistoryOp::Add(t) => m.push((next, t@)),
        HistoryOp::RemoveAt(h) => remove_handle(m, h),
        HistoryOp::Clear => Seq::empty(),
    }
}

/// The handle counter after one operation: only an append consumes a handle.
pub open spec fn step_next(next: u64, op: HistoryOp) -> u64 {
    match op {
        HistoryOp::Add(_) => ((next + 1) as u64),
        HistoryOp::RemoveAt(_) => next,
        HistoryOp::Clear => next,
    }
}

/// The model entries after replaying `ops` in order from `(m, next)`.
pub open spec fn replay(
    m: Seq<(u64, Seq<char>)>,
    next: u64,
    ops: Seq<HistoryOp>,
) -> Seq<(u64, Seq<char>)>
    decreases ops.len(),
{
    if ops.len() == 0 {
        m
    } else {
        replay(step_entries(m, next, ops[0]), step_next(next, ops[0]), ops.drop_first())
    }
}

/// The handle counter after replaying `ops` in order from `next`.
pub open spec fn replay_next(next: u64, ops: Seq<HistoryOp>) -> u64
    decreases ops.len(),
{
    if ops.len() == 0 {
        next
    } else {
        replay_next(step_next(next, ops[0]), ops.drop_first())
    }
}

/// Clearing is idempotent: one `Clear` leaves the model empty, and a second
/// `Clear` right after changes nothing.
pub proof fn lemma_clear_idempotent(m: Seq<(u64, Seq<char>)>, next: u64)
    ensures
        step_entries(m, next, HistoryOp::Clear) == Seq::<(u64, Seq<char>)>::empty(),
        step_entries(
            step_entries(m, next, HistoryOp::Clear),
            step_next(next, HistoryOp::Clear),
            HistoryOp::Clear,
        ) == step_entries(m, next, HistoryOp::Clear),
        step_next(step_next(next, HistoryOp::Clear), HistoryOp::Clear)
            == step_next(next, HistoryOp::Clear),
{
}

/// Removing a handle that no entry carries leaves the model unchanged: such a
/// removal is a silent no-op, never an error.
pub proof fn lemma_remove_missing_handle_noop(m: Seq<(u64, Seq<char>)>, next: u64, h: u64)
    requires
        !crate::history::has_handle(m, h),
    ensures
        step_entries(m, next, HistoryOp::RemoveAt(h)) == m,
        step_next(next, HistoryOp::RemoveAt(h)) == next,
{
}

/// No lost updates: any interleaving of manual adds and poller appends commits
/// under the store's lock in some total order, so it replays as a sequence of
/// `Add` operations; replaying any such sequence grows the history by exactly
/// the number of operations, whatever the interleaving was.
pub proof fn lemma_no_lost_updates(m: Seq<(u64, Seq<char>)>, next: u64, ops: Seq<HistoryOp>)
    requires
        forall|i: int| 0 <= i < ops.len() ==> ops[i] is Add,
    ensures
        replay(m, next, ops).len() == m.len() + ops.len(),
    decreases ops.len(),
{
    if ops.len() > 0 {
        assert(ops[0] is Add);
        let m1 = step_entries(m, next, ops[0]);
        assert(m1.len() == m.len() + 1);
        let rest = ops.drop_first();
        assert forall|i: int| 0 <= i < rest.len() implies #[trigger] rest[i] is Add by {
            assert(rest[i] == ops[i + 1]);
        }
        lemma_no_lost_updates(m1, step_next(next, ops[0]), rest);
    }
}

} // verus!
