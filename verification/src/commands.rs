//! The command surface the presentation layer drives: the history store, the
//! auto-capture flag, the poller's last observation, and the draft line for
//! manual entry. One value of [`PastaBox`] is the whole shared state; the
//! caller guards it with one lock and keeps OS-clipboard calls outside it.

use vstd::prelude::*;
use crate::history::{
    Entry, HistoryStore, entries_model, has_handle, handle_index, remove_handle, texts_of,
    texts_view,
};
use crate::poller::{ClipboardRead, should_append};

verus! {

/// The clipboard-history core.
///
/// Manual adds deliberately leave the poller's last observation untouched:
/// the tracker reflects what was seen on the OS clipboard, not what the user
/// typed. Right after a manual add of a text that also sits on the clipboard,
/// the next poller cycle may therefore append it once more.
pub struct PastaBox {
    draft: String,
    last: Option<String>,
    store: HistoryStore,
    auto: bool,
}

impl PastaBox {
    /// The ordered history: handle and text of each snippet, in commit order.
    pub closed spec fn history(&self) -> Seq<(u64, Seq<char>)> {
        self.store@
    }

    /// The handle the next committed snippet will receive.
    pub closed spec fn next_handle(&self) -> u64 {
        self.store.next_handle()
    }

    /// The last clipboard text the poller observed, if any.
    pub closed spec fn last_observed(&self) -> Option<Seq<char>> {
        match self.last {
            Some(s) => Some(s@),
            None => None,
        }
    }

    /// Whether the poller is allowed to append.
    pub closed spec fn auto_on(&self) -> bool {
        self.auto
    }

    /// The in-progress manual entry.
    pub closed spec fn draft_view(&self) -> Seq<char> {
        self.draft@
    }

    /// The store's handles are unique and below its counter.
    pub closed spec fn wf(&self) -> bool {
        self.store.wf()
    }

    /// Append `text` as a new snippet at the end; returns its stable handle.
    /// The poller's last observation, the flag and the draft are untouched.
    pub fn add_manual(&mut self, text: String) -> (h: u64)
        requires
            old(self).wf(),
            old(self).next_handle() < u64::MAX,
        ensures
            final(self).wf(),
            h == old(self).next_handle(),
            final(self).history() == old(self).history().push((h, text@)),
            final(self).next_handle() == old(self).next_handle() + 1,
            final(self).last_observed() == old(self).last_observed(),
            final(self).auto_on() == old(self).auto_on(),
            final(self).draft_view() == old(self).draft_view(),
    {
        self.store.add(text)
    }

    /// The add-button action: commit a non-empty draft as a snippet and reset
    /// the draft; an empty draft changes nothing.
    pub fn commit_draft(&mut self)
        requires
            old(self).wf(),
            old(self).next_handle() < u64::MAX,
        ensures
            final(self).wf(),
            old(self).draft_view().len() > 0 ==> {
                &&& final(self).history() == old(self).history().push(
                    (old(self).next_handle(), old(self).draft_view()),
                )
                &&& final(self).draft_view() == Seq::<char>::empty()
                &&& final(self).next_handle() == old(self).next_handle() + 1
            },
            old(self).draft_view().len() == 0 ==> *final(self) == *old(self),
            final(self).last_observed() == old(self).last_observed(),
            final(self).auto_on() == old(self).auto_on(),
    {
        let empty = String::new();
        if self.draft == empty {
            proof {
                assert(self.draft@ =~= Seq::<char>::empty());
            }
        } else {
            proof {
                if self.draft@.len() == 0 {
                    assert(self.draft@ =~= Seq::<char>::empty());
                }
            }
            let text = self.draft.clone();
            self.draft = empty;
            self.store.add(text);
        }
    }

    /// Replace the draft line (the text-edit field writes through this).
    pub fn set_draft(&mut self, text: String)
        ensures
            final(self).draft_view() == text@,
            final(self).wf() == old(self).wf(),
            final(self).history() == old(self).history(),
            final(self).next_handle() == old(self).next_handle(),
            final(self).last_observed() == old(self).last_observed(),
            final(self).auto_on() == old(self).auto_on(),
    {
        self.draft = text;
    }

    /// The current draft line.
    pub fn draft_text(&self) -> (t: String)
        ensures
            t@ == self.draft_view(),
    {
        self.draft.clone()
    }

    /// Remove the snippet with handle `h`. An unknown handle is a silent
    /// no-op, never an error: a handle names one committed snippet forever,
    /// so a racing append can never shift what `h` means.
    pub fn remove_at(&mut self, h: u64)
        requires
            old(self).wf(),
        ensures
            final(self).wf(),
            final(self).history() == remove_handle(old(self).history(), h),
            !has_handle(old(self).history(), h) ==> final(self).history() == old(self).history(),
            final(self).next_handle() == old(self).next_handle(),
            final(self).last_observed() == old(self).last_observed(),
            final(self).auto_on() == old(self).auto_on(),
            final(self).draft_view() == old(self).draft_view(),
    {
        self.store.remove_at(h)
    }

    /// Empty the history. Idempotent. The poller's last observation is kept:
    /// it reflects OS-clipboard content, not store content.
    pub fn clear(&mut self)
        requires
            old(self).wf(),
        ensures
            final(self).wf(),
            final(self).history() == Seq::<(u64, Seq<char>)>::empty(),
            final(self).next_handle() == old(self).next_handle(),
            final(self).last_observed() == old(self).last_observed(),
            final(self).auto_on() == old(self).auto_on(),
            final(self).draft_view() == old(self).draft_view(),
    {
        self.store.clear()
    }

    /// Flip the auto-capture flag; takes effect at the poller's next decision.
    pub fn toggle_auto_capture(&mut self)
        ensures
            final(self).auto_on() == !old(self).auto_on(),
            final(self).wf() == old(self).wf(),
            final(self).history() == old(self).history(),
            final(self).next_handle() == old(self).next_handle(),
            final(self).last_observed() == old(self).last_observed(),
            final(self).draft_view() == old(self).draft_view(),
    {
        self.auto = !self.auto;
    }

    /// Whether auto-capture is on.
    pub fn auto_capture(&self) -> (b: bool)
        ensures
            b == self.auto_on(),
    {
        self.auto
    }

    /// The text to re-copy for handle `h` (the caller writes it to the OS
    /// clipboard outside the lock); `None` when no snippet carries `h`.
    pub fn copy_out(&self, h: u64) -> (r: Option<String>)
        requires
            self.wf(),
        ensures
            (r matches Some(t) ==> has_handle(self.history(), h)
                && t@ == self.history()[handle_index(self.history(), h)].1),
            r is None ==> !has_handle(self.history(), h),
    {
        self.store.text_of(h)
    }

    /// An immutable copy of the ordered history, for rendering: no lock is
    /// needed beyond the copy itself.
    pub fn snapshot(&self) -> (r: Vec<Entry>)
        ensures
            entries_model(r@) == self.history(),
    {
        self.store.snapshot()
    }

    /// The history texts alone, in order — the shape the persisted state keeps.
    pub fn snapshot_texts(&self) -> (r: Vec<String>)
        ensures
            texts_view(r@) == texts_of(self.history()),
    {
        self.store.texts()
    }

    /// The number of stored snippets.
    pub fn len(&self) -> (n: usize)
        ensures
            n == self.history().len(),
    {
        self.store.len()
    }

    /// The handle the next committed snippet will receive, as a value the
    /// caller can test against `u64::MAX` before an append.
    pub fn peek_next_handle(&self) -> (h: u64)
        ensures
            h == self.next_handle(),
    {
        self.store.peek_next_handle()
    }

    /// One poller cycle after the OS clipboard was sampled: when the append
    /// condition holds, commit the observation and remember it — one logical
    /// step, so no reader can see the tracker updated without the matching
    /// append. On any skip (flag off, failed read, empty text, unchanged
    /// text) nothing is mutated.
    pub fn poll_cycle(&mut self, read: ClipboardRead)
        requires
            old(self).wf(),
            old(self).next_handle() < u64::MAX,
        ensures
            final(self).wf(),
            (if should_append(old(self).auto_on(), old(self).last_observed(), read@) {
                &&& final(self).history() == old(self).history().push(
                    (old(self).next_handle(), read@->0),
                )
                &&& final(self).last_observed() == read@
                &&& final(self).next_handle() == old(self).next_handle() + 1
            } else {
                *final(self) == *old(self)
            }),
            final(self).auto_on() == old(self).auto_on(),
            final(self).draft_view() == old(self).draft_view(),
    {
        if !self.auto {
            return;
        }
        match read {
            ClipboardRead::Unavailable => {}
            ClipboardRead::Text(text) => {
                let empty = String::new();
                if text == empty {
                    proof {
                        assert(text@ =~= Seq::<char>::empty());
                    }
                    return;
                }
                proof {
                    if text@.len() == 0 {
                        assert(text@ =~= Seq::<char>::empty());
                    }
                }
                let unchanged = match &self.last {
                    Some(prev) => *prev == text,
                    None => false,
                };
                if unchanged {
                    return;
                }
                self.store.add(text.clone());
                self.last = Some(text);
            }
        }
    }
}

impl PastaBox {
    /// Rebuild the core from persisted values: the history texts receive
    /// fresh handles 0, 1, ... in order, the poller starts with no
    /// observation, and the draft and the flag are taken as given.
    pub fn from_parts(draft: String, history: Vec<String>, auto: bool) -> (r: PastaBox)
        requires
            history@.len() < u64::MAX,
        ensures
            r.wf(),
            texts_of(r.history()) == texts_view(history@),
            r.history().len() == history@.len(),
            forall|i: int| 0 <= i < r.history().len() ==> (#[trigger] r.history()[i]).0 == i,
            r.next_handle() == history@.len(),
            r.last_observed() is None,
            r.auto_on() == auto,
            r.draft_view() == draft@,
    {
        let mut store = HistoryStore::new();
        proof {
            assert(texts_of(store@) =~= texts_view(history@).subrange(0, 0));
        }
        let mut i: usize = 0;
        while i < history.len()
            invariant
                store.wf(),
                i <= history@.len(),
                history@.len() < u64::MAX,
                store.next_handle() == i,
                store@.len() == i,
                texts_of(store@) == texts_view(history@).subrange(0, i as int),
                forall|k: int| 0 <= k < i ==> (#[trigger] store@[k]).0 == k,
            decreases history@.len() - i,
        {
            let ghost prev = store@;
            let t = history[i].clone();
            proof {
                assert(texts_view(history@)[i as int] == history@[i as int]@);
            }
            store.add(t);
            proof {
                crate::history::lemma_texts_of_push(prev, (i as u64, history@[i as int]@));
                assert(texts_view(history@).subrange(0, (i + 1) as int)
                    =~= texts_view(history@).subrange(0, i as int).push(
                    texts_view(history@)[i as int],
                ));
            }
            i = i + 1;
        }
        proof {
            assert(texts_view(history@).subrange(0, history@.len() as int) =~= texts_view(history@));
        }
        PastaBox { draft, last: None, store, auto }
    }
}

impl Default for PastaBox {
    /// The startup state: empty history, nothing observed yet, auto-capture
    /// on, empty draft.
    fn default() -> (r: Self)
        ensures
            r.wf(),
            r.history() == Seq::<(u64, Seq<char>)>::empty(),
            r.next_handle() == 0,
            r.last_observed() is None,
            r.auto_on(),
            r.draft_view() == Seq::<char>::empty(),
    {
        PastaBox { draft: String::new(), last: None, store: HistoryStore::new(), auto: true }
    }
}

} // verus!
