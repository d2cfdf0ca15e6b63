use pastabox::commands::PastaBox;
use pastabox::history::HistoryStore;
use pastabox::replay::HistoryOp;

fn texts(b: &PastaBox) -> Vec<String> {
    b.snapshot_texts()
}

#[test]
fn default_state_is_empty() {
    let b = PastaBox::default();
    assert_eq!(b.len(), 0);
    assert!(b.auto_capture());
    assert_eq!(b.draft_text(), "");
    assert!(b.snapshot().is_empty());
    assert_eq!(b.peek_next_handle(), 0);
}

#[test]
fn add_manual_appends_in_order() {
    let mut b = PastaBox::default();
    let h0 = b.add_manual(String::from("alpha"));
    let h1 = b.add_manual(String::from("beta"));
    assert_eq!(h0, 0);
    assert_eq!(h1, 1);
    assert_eq!(texts(&b), vec![String::from("alpha"), String::from("beta")]);
    let snap = b.snapshot();
    assert_eq!(snap[0].handle, 0);
    assert_eq!(snap[0].text, "alpha");
    assert_eq!(snap[1].handle, 1);
    assert_eq!(snap[1].text, "beta");
}

#[test]
fn snapshot_matches_reference_replay() {
    // Add "a"(0), add "b"(1), remove 0, add "c"(2), clear, add "d"(3):
    // the reference replay leaves exactly [(3, "d")].
    let mut s = HistoryStore::new();
    let ops = vec![
        HistoryOp::Add(String::from("a")),
        HistoryOp::Add(String::from("b")),
        HistoryOp::RemoveAt(0),
        HistoryOp::Add(String::from("c")),
        HistoryOp::Clear,
        HistoryOp::Add(String::from("d")),
    ];
    s.apply_all(&ops);
    let snap = s.snapshot();
    assert_eq!(snap.len(), 1);
    assert_eq!(snap[0].handle, 3);
    assert_eq!(snap[0].text, "d");
    assert_eq!(s.peek_next_handle(), 4);
}

#[test]
fn remove_by_handle_keeps_order() {
    let mut s = HistoryStore::new();
    s.add(String::from("a"));
    let h1 = s.add(String::from("b"));
    s.add(String::from("c"));
    s.remove_at(h1);
    let snap = s.snapshot();
    assert_eq!(snap.len(), 2);
    assert_eq!(snap[0].text, "a");
    assert_eq!(snap[1].text, "c");
}

#[test]
fn clear_is_idempotent() {
    let mut b = PastaBox::default();
    b.add_manual(String::from("one"));
    b.add_manual(String::from("two"));
    b.clear();
    assert_eq!(b.len(), 0);
    assert!(b.snapshot().is_empty());
    b.clear();
    assert_eq!(b.len(), 0);
    assert!(b.snapshot().is_empty());
}

#[test]
fn remove_nonexistent_handle_is_noop() {
    let mut b = PastaBox::default();
    b.add_manual(String::from("keep"));
    b.remove_at(999);
    assert_eq!(texts(&b), vec![String::from("keep")]);
    let mut empty = PastaBox::default();
    empty.remove_at(0);
    assert_eq!(empty.len(), 0);
}

#[test]
fn removed_handle_is_gone_for_good() {
    let mut b = PastaBox::default();
    let h = b.add_manual(String::from("gone"));
    b.remove_at(h);
    assert_eq!(b.len(), 0);
    // Removing it again is still a no-op.
    b.remove_at(h);
    assert_eq!(b.len(), 0);
    assert!(b.copy_out(h).is_none());
}

#[test]
fn handles_are_stable_across_removals() {
    let mut b = PastaBox::default();
    let ha = b.add_manual(String::from("a"));
    let hb = b.add_manual(String::from("b"));
    b.remove_at(ha);
    // b's handle still names b, although its position shifted.
    assert_eq!(b.copy_out(hb).unwrap(), "b");
    // A later add never reuses a handle.
    let hc = b.add_manual(String::from("c"));
    assert_eq!(hc, 2);
}

#[test]
fn copy_out_finds_text_by_handle() {
    let mut b = PastaBox::default();
    let hx = b.add_manual(String::from("x"));
    let hy = b.add_manual(String::from("y"));
    assert_eq!(b.copy_out(hx).unwrap(), "x");
    assert_eq!(b.copy_out(hy).unwrap(), "y");
    assert!(b.copy_out(77).is_none());
}

#[test]
fn commit_draft_commits_and_resets() {
    let mut b = PastaBox::default();
    b.set_draft(String::from("hello"));
    b.commit_draft();
    assert_eq!(texts(&b), vec![String::from("hello")]);
    assert_eq!(b.draft_text(), "");
}

#[test]
fn commit_empty_draft_is_noop() {
    let mut b = PastaBox::default();
    b.commit_draft();
    assert_eq!(b.len(), 0);
    assert_eq!(b.draft_text(), "");
}

#[test]
fn duplicate_texts_are_permitted() {
    // There is no global uniqueness constraint: the same text may be
    // committed many times, each under its own handle.
    let mut b = PastaBox::default();
    let h0 = b.add_manual(String::from("same"));
    let h1 = b.add_manual(String::from("same"));
    assert_ne!(h0, h1);
    assert_eq!(texts(&b), vec![String::from("same"), String::from("same")]);
}

#[test]
fn toggle_flips_the_flag() {
    let mut b = PastaBox::default();
    assert!(b.auto_capture());
    b.toggle_auto_capture();
    assert!(!b.auto_capture());
    b.toggle_auto_capture();
    assert!(b.auto_capture());
}

#[test]
fn from_parts_rehydrates_history() {
    let b = PastaBox::from_parts(
        String::from("half-typed"),
        vec![String::from("x"), String::from("y")],
        false,
    );
    assert_eq!(texts(&b), vec![String::from("x"), String::from("y")]);
    let snap = b.snapshot();
    assert_eq!(snap[0].handle, 0);
    assert_eq!(snap[1].handle, 1);
    assert_eq!(b.peek_next_handle(), 2);
    assert!(!b.auto_capture());
    assert_eq!(b.draft_text(), "half-typed");
}
