//! The ordered snippet store. Each snippet keeps the stable handle it was
//! given when it was committed, so removal and copy-out address an entry
//! unambiguously and never race with position shifts from later appends.

use vstd::prelude::*;
use crate::replay::{HistoryOp, replay, replay_next, step_entries, step_next};

verus! {

/// One stored snippet together with its stable handle.
pub struct Entry {
    pub handle: u64,
    pub text: String,
}

/// The mathematical value of one entry: its handle and its text.
pub open spec fn entry_model(e: Entry) -> (u64, Seq<char>) {
    (e.handle, e.text@)
}

/// The mathematical value of a sequence of entries.
pub open spec fn entries_model(s: Seq<Entry>) -> Seq<(u64, Seq<char>)> {
    s.map_values(|e: Entry| entry_model(e))
}

/// Whether some entry of the model carries handle `h`.
pub open spec fn has_handle(m: Seq<(u64, Seq<char>)>, h: u64) -> bool {
    exists|i: int| 0 <= i < m.len() && m[i].0 == h
}

/// The position of the entry carrying handle `h`; meaningful only when
/// `has_handle(m, h)` holds (in a well-formed store handles are unique).
pub open spec fn handle_index(m: Seq<(u64, Seq<char>)>, h: u64) -> int {
    choose|i: int| 0 <= i < m.len() && m[i].0 == h
}

/// Removal by handle on the model: drop the entry carrying `h`, or leave the
/// model unchanged when no entry carries it.
pub open spec fn remove_handle(m: Seq<(u64, Seq<char>)>, h: u64) -> Seq<(u64, Seq<char>)> {
    if has_handle(m, h) {
        m.remove(handle_index(m, h))
    } else {
        m
    }
}

/// The texts of a model, in order, without their handles.
pub open spec fn texts_of(m: Seq<(u64, Seq<char>)>) -> Seq<Seq<char>> {
    m.map_values(|p: (u64, Seq<char>)| p.1)
}

/// The views of a sequence of strings.
pub open spec fn texts_view(s: Seq<String>) -> Seq<Seq<char>> {
    s.map_values(|t: String| t@)
}

/// Appending an entry appends its model value.
pub proof fn lemma_entries_model_push(s: Seq<Entry>, e: Entry)
    ensures
        entries_model(s.push(e)) == entries_model(s).push(entry_model(e)),
{
    assert(entries_model(s.push(e)) =~= entries_model(s).push(entry_model(e)));
}

/// Appending a string appends its view.
pub proof fn lemma_texts_view_push(s: Seq<String>, t: String)
    ensures
        texts_view(s.push(t)) == texts_view(s).push(t@),
{
    assert(texts_view(s.push(t)) =~= texts_view(s).push(t@));
}

/// Appending a model entry appends its text.
pub proof fn lemma_texts_of_push(m: Seq<(u64, Seq<char>)>, p: (u64, Seq<char>))
    ensures
        texts_of(m.push(p)) == texts_of(m).push(p.1),
{
    assert(texts_of(m.push(p)) =~= texts_of(m).push(p.1));
}

/// Handles strictly increase along the sequence: each handle appears at most
/// once, and snapshot order is commit order.
pub open spec fn handles_increasing(m: Seq<(u64, Seq<char>)>) -> bool {
    forall|i: int, j: int| 0 <= i < j < m.len() ==> m[i].0 < m[j].0
}

/// Every handle in the model was assigned before `next`.
pub open spec fn handles_below(m: Seq<(u64, Seq<char>)>, next: u64) -> bool {
    forall|i: int| 0 <= i < m.len() ==> m[i].0 < next
}

/// The ordered history of snippets. Entries carry stable handles assigned
/// from a counter at insertion; handles are never reused, not even by `clear`.
pub struct HistoryStore {
    entries: Vec<Entry>,
    next: u64,
}

impl View for HistoryStore {
    type V = Seq<(u64, Seq<char>)>;

    closed spec fn view(&self) -> Seq<(u64, Seq<char>)> {
        entries_model(self.entries@)
    }
}

impl HistoryStore {
    /// The handle the next committed snippet will receive.
    pub closed spec fn next_handle(&self) -> u64 {
        self.next
    }

    /// Handles strictly increase along the store and all lie below the
    /// counter, so every handle addresses at most one entry.
    pub closed spec fn wf(&self) -> bool {
        handles_increasing(self@) && handles_below(self@, self.next)
    }

    /// An empty store whose first handle will be 0.
    pub fn new() -> (s: HistoryStore)
        ensures
            s.wf(),
            s@ == Seq::<(u64, Seq<char>)>::empty(),
            s.next_handle() == 0,
    {
        let s = HistoryStore { entries: Vec::new(), next: 0 };
        proof {
            assert(s@ =~= Seq::<(u64, Seq<char>)>::empty());
        }
        s
    }

    /// Append `text` at the end under a fresh stable handle; returns that handle.
    pub fn add(&mut self, text: String) -> (h: u64)
        requires
            old(self).wf(),
            old(self).next_handle() < u64::MAX,
        ensures
            final(self).wf(),
            h == old(self).next_handle(),
            final(self)@ == old(self)@.push((h, text@)),
            final(self).next_handle() == old(self).next_handle() + 1,
    {
        let h = self.next;
        let ghost t = text@;
        self.entries.push(Entry { handle: h, text });
        self.next = self.next + 1;
        proof {
            assert(self@ =~= old(self)@.push((h, t)));
        }
        h
    }

    /// The position of the entry carrying handle `h`, or `None` when no entry
    /// carries it.
    fn index_of(&self, h: u64) -> (r: Option<usize>)
        ensures
            (r matches Some(i) ==> i < self@.len() && self@[i as int].0 == h),
            r is None ==> !has_handle(self@, h),
    {
        let mut i: usize = 0;
        while i < self.entries.len()
            invariant
                i <= self.entries@.len(),
                forall|k: int| 0 <= k < i ==> self@[k].0 != h,
            decreases self.entries@.len() - i,
        {
            if self.entries[i].handle == h {
                proof {
                    assert(self@[i as int] == entry_model(self.entries@[i as int]));
                }
                return Some(i);
            }
            proof {
                assert(self@[i as int] == entry_model(self.entries@[i as int]));
            }
            i = i + 1;
        }
        None
    }

    /// Remove the snippet carrying handle `h`; leave the store unchanged when
    /// no snippet carries it. Never fails, never panics.
    pub fn remove_at(&mut self, h: u64)
        requires
            old(self).wf(),
        ensures
            final(self).wf(),
            final(self)@ == remove_handle(old(self)@, h),
            final(self).next_handle() == old(self).next_handle(),
    {
        match self.index_of(h) {
            None => {
                proof {
                    assert(remove_handle(self@, h) =~= self@);
                }
            }
            Some(i) => {
                self.entries.remove(i);
                proof {
                    let m = old(self)@;
                    assert(has_handle(m, h));
                    let j = handle_index(m, h);
                    assert(0 <= j < m.len() && m[j].0 == h);
                    assert(j == i);
                    assert(self@ =~= m.remove(i as int));
                    assert(handles_increasing(self@)) by {
                        assert forall|p: int, q: int|
                            0 <= p < q < self@.len() implies self@[p].0 < self@[q].0 by {
                            let p0: int = if p < i { p } else { p + 1 };
                            let q0: int = if q < i { q } else { q + 1 };
                            assert(self@[p] == m[p0]);
                            assert(self@[q] == m[q0]);
                        }
                    }
                }
            }
        }
    }

    /// Empty the store. Idempotent; the handle counter is kept, so handles are
    /// never reused.
    pub fn clear(&mut self)
        requires
            old(self).wf(),
        ensures
            final(self).wf(),
            final(self)@ == Seq::<(u64, Seq<char>)>::empty(),
            final(self).next_handle() == old(self).next_handle(),
    {
        self.entries.clear();
        proof {
            assert(self@ =~= Seq::<(u64, Seq<char>)>::empty());
        }
    }

    /// The text stored under handle `h`, or `None` when no snippet carries it.
    pub fn text_of(&self, h: u64) -> (r: Option<String>)
        requires
            self.wf(),
        ensures
            (r matches Some(t) ==> has_handle(self@, h)
                && t@ == self@[handle_index(self@, h)].1),
            r is None ==> !has_handle(self@, h),
    {
        match self.index_of(h) {
            None => None,
            Some(i) => {
                proof {
                    assert(has_handle(self@, h));
                    let j = handle_index(self@, h);
                    assert(0 <= j < self@.len() && self@[j].0 == h);
                    assert(j == i);
                }
                Some(self.entries[i].text.clone())
            }
        }
    }

    /// An immutable copy of the current ordered contents, for rendering.
    pub fn snapshot(&self) -> (r: Vec<Entry>)
        ensures
            entries_model(r@) == self@,
    {
        let mut r: Vec<Entry> = Vec::new();
        let mut i: usize = 0;
        while i < self.entries.len()
            invariant
                i <= self.entries@.len(),
                entries_model(r@) =~= self@.subrange(0, i as int),
            decreases self.entries@.len() - i,
        {
            let ghost prev = r@;
            let e = Entry { handle: self.entries[i].handle, text: self.entries[i].text.clone() };
            proof {
                assert(entry_model(e) == self@[i as int]);
            }
            r.push(e);
            proof {
                lemma_entries_model_push(prev, e);
                assert(self@.subrange(0, (i + 1) as int)
                    =~= self@.subrange(0, i as int).push(self@[i as int]));
                assert(entries_model(r@) == self@.subrange(0, (i + 1) as int));
            }
            i = i + 1;
        }
        proof {
            assert(self@.subrange(0, self@.len() as int) =~= self@);
        }
        r
    }

    /// The stored texts alone, in commit order.
    pub fn texts(&self) -> (r: Vec<String>)
        ensures
            texts_view(r@) == texts_of(self@),
    {
        let mut r: Vec<String> = Vec::new();
        let mut i: usize = 0;
        while i < self.entries.len()
            invariant
                i <= self.entries@.len(),
                texts_view(r@) =~= texts_of(self@).subrange(0, i as int),
            decreases self.entries@.len() - i,
        {
            let ghost prev = r@;
            let t = self.entries[i].text.clone();
            proof {
                assert(t@ == self@[i as int].1);
            }
            r.push(t);
            proof {
                lemma_texts_view_push(prev, t);
                assert(texts_of(self@)[i as int] == self@[i as int].1);
                assert(texts_of(self@).subrange(0, (i + 1) as int)
                    =~= texts_of(self@).subrange(0, i as int).push(texts_of(self@)[i as int]));
                assert(texts_view(r@) == texts_of(self@).subrange(0, (i + 1) as int));
            }
            i = i + 1;
        }
        proof {
            assert(texts_of(self@).subrange(0, texts_of(self@).len() as int) =~= texts_of(self@));
        }
        r
    }

    /// The number of stored snippets.
    pub fn len(&self) -> (n: usize)
        ensures
            n == self@.len(),
    {
        self.entries.len()
    }

    /// The handle the next committed snippet will receive, as a value the
    /// caller can test (for instance against `u64::MAX` before an append).
    pub fn peek_next_handle(&self) -> (h: u64)
        ensures
            h == self.next_handle(),
    {
        self.next
    }

    /// Perform one structural operation; the store tracks the reference model
    /// step for step.
    pub fn apply(&mut self, op: &HistoryOp)
        requires
            old(self).wf(),
            old(self).next_handle() < u64::MAX,
        ensures
            final(self).wf(),
            final(self)@ == step_entries(old(self)@, old(self).next_handle(), *op),
            final(self).next_handle() == step_next(old(self).next_handle(), *op),
    {
        match op {
            HistoryOp::Add(t) => {
                self.add(t.clone());
            }
            HistoryOp::RemoveAt(h) => {
                self.remove_at(*h);
            }
            HistoryOp::Clear => {
                self.clear();
            }
        }
    }

    /// Perform a whole operation sequence in order. The final contents equal
    /// the replay of the same operations against the reference model: the
    /// store is observationally the reference ordered-list model.
    pub fn apply_all(&mut self, ops: &Vec<HistoryOp>)
        requires
            old(self).wf(),
            old(self).next_handle() + ops@.len() <= u64::MAX,
        ensures
            final(self).wf(),
            final(self)@ == replay(old(self)@, old(self).next_handle(), ops@),
            final(self).next_handle() == replay_next(old(self).next_handle(), ops@),
    {
        let ghost m0 = self@;
        let ghost n0 = self.next_handle();
        proof {
            assert(ops@.subrange(0, ops@.len() as int) =~= ops@);
        }
        let mut i: usize = 0;
        while i < ops.len()
            invariant
                self.wf(),
                i <= ops@.len(),
                self.next_handle() <= n0 + i,
                n0 + ops@.len() <= u64::MAX,
                replay(self@, self.next_handle(), ops@.subrange(i as int, ops@.len() as int))
                    == replay(m0, n0, ops@),
                replay_next(self.next_handle(), ops@.subrange(i as int, ops@.len() as int))
                    == replay_next(n0, ops@),
            decreases ops@.len() - i,
        {
            let ghost pre = *self;
            let ghost tail = ops@.subrange(i as int, ops@.len() as int);
            self.apply(&ops[i]);
            i = i + 1;
            proof {
                assert(tail[0] == ops@[i - 1]);
                assert(tail.drop_first() =~= ops@.subrange(i as int, ops@.len() as int));
                assert(replay(pre@, pre.next_handle(), tail)
                    == replay(self@, self.next_handle(), ops@.subrange(i as int, ops@.len() as int)));
                assert(replay_next(pre.next_handle(), tail)
                    == replay_next(self.next_handle(), ops@.subrange(i as int, ops@.len() as int)));
            }
        }
        proof {
            assert(ops@.subrange(ops@.len() as int, ops@.len() as int)
                =~= Seq::<HistoryOp>::empty());
        }
    }
}

} // verus!
