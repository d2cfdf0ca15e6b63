//! The poller's sampling decision. Whoever runs the background task samples
//! the OS clipboard outside any lock and hands the outcome to the core; this
//! module says exactly when an observation is committed to the history and
//! when the cycle is skipped.

use vstd::prelude::*;

verus! {

/// One clipboard sample: the text read, or a failed read. A transient read
/// failure is never fatal; it only skips the cycle.
pub enum ClipboardRead {
    Text(String),
    Unavailable,
}

impl View for ClipboardRead {
    type V = Option<Seq<char>>;

    open spec fn view(&self) -> Option<Seq<char>> {
        match self {
            ClipboardRead::Text(s) => Some(s@),
            ClipboardRead::Unavailable => None,
        }
    }
}

/// The append condition of one poller cycle: auto-capture is on, the read
/// succeeded, the text is non-empty, and it differs from the last observation.
/// Everything else is a skip that mutates nothing.
pub open spec fn should_append(
    auto: bool,
    last: Option<Seq<char>>,
    obs: Option<Seq<char>>,
) -> bool {
    auto && obs is Some && obs->0.len() > 0 && last != obs
}

/// With auto-capture off, no observation is ever appended, whatever the
/// clipboard does.
pub proof fn lemma_auto_off_never_appends(last: Option<Seq<char>>, obs: Option<Seq<char>>)
    ensures
        !should_append(false, last, obs),
{
}

/// An observation equal to the last one is never appended: once a text has
/// been committed and remembered, seeing it again cannot duplicate it.
pub proof fn lemma_repeat_observation_skipped(auto: bool, c: Seq<char>)
    ensures
        !should_append(auto, Some(c), Some(c)),
{
}

/// The texts a run of poller cycles appends, with auto-capture on throughout:
/// `last` is the observation remembered at the start and `obs` the samples in
/// order. Each cycle behaves as `poll_cycle` ensures — exactly when the append
/// condition holds, the sampled text is appended and becomes the remembered
/// observation.
pub open spec fn appended_texts(
    last: Option<Seq<char>>,
    obs: Seq<Option<Seq<char>>>,
) -> Seq<Seq<char>>
    decreases obs.len(),
{
    if obs.len() == 0 {
        Seq::empty()
    } else if should_append(true, last, obs[0]) {
        seq![obs[0]->0] + appended_texts(obs[0], obs.drop_first())
    } else {
        appended_texts(last, obs.drop_first())
    }
}

/// The first text a run appends always differs from the observation
/// remembered at the start of the run.
pub proof fn lemma_first_append_differs(last: Option<Seq<char>>, obs: Seq<Option<Seq<char>>>)
    ensures
        (appended_texts(last, obs).len() > 0 && last is Some)
            ==> appended_texts(last, obs)[0] != last->0,
    decreases obs.len(),
{
    if obs.len() > 0 && !should_append(true, last, obs[0]) {
        lemma_first_append_differs(last, obs.drop_first());
    }
}

/// No two neighbouring texts of the sequence are equal.
pub open spec fn no_adjacent_duplicates(a: Seq<Seq<char>>) -> bool {
    forall|i: int| 0 <= i < a.len() - 1 ==> #[trigger] a[i] != a[i + 1]
}

/// Dedup across cycles: whatever the clipboard shows and however often it is
/// sampled, the texts the poller appends never repeat back to back — a value
/// observed many times in a row is captured once.
pub proof fn lemma_appends_deduplicated(last: Option<Seq<char>>, obs: Seq<Option<Seq<char>>>)
    ensures
        no_adjacent_duplicates(appended_texts(last, obs)),
    decreases obs.len(),
{
    if obs.len() > 0 {
        if should_append(true, last, obs[0]) {
            let t = obs[0]->0;
            let rest = appended_texts(obs[0], obs.drop_first());
            lemma_appends_deduplicated(obs[0], obs.drop_first());
            lemma_first_append_differs(obs[0], obs.drop_first());
            let a = appended_texts(last, obs);
            assert(a == seq![t] + rest);
            assert forall|i: int| 0 <= i < a.len() - 1 implies #[trigger] a[i] != a[i + 1] by {
                if i == 0 {
                    assert(a[0] == t);
                    assert(a[1] == rest[0]);
                } else {
                    assert(a[i] == rest[i - 1]);
                    assert(a[i + 1] == rest[i]);
                }
            }
        } else {
            assert(appended_texts(last, obs) == appended_texts(last, obs.drop_first()));
            lemma_appends_deduplicated(last, obs.drop_first());
        }
    }
}

/// A failed read is never appended.
pub proof fn lemma_failed_read_skipped(auto: bool, last: Option<Seq<char>>)
    ensures
        !should_append(auto, last, None),
{
}

/// Empty clipboard content is never appended, so clipboard-clear events do not
/// pollute the history.
pub proof fn lemma_empty_text_skipped(auto: bool, last: Option<Seq<char>>)
    ensures
        !should_append(auto, last, Some(Seq::<char>::empty())),
{
}

} // verus!
