use pastabox::commands::PastaBox;
use pastabox::poller::ClipboardRead;

fn observe(b: &mut PastaBox, s: &str) {
    b.poll_cycle(ClipboardRead::Text(String::from(s)));
}

fn texts(b: &PastaBox) -> Vec<String> {
    b.snapshot_texts()
}

#[test]
fn dedup_of_repeated_observations() {
    let mut b = PastaBox::default();
    for s in ["a", "a", "b", "b", "b"] {
        observe(&mut b, s);
    }
    assert_eq!(texts(&b), vec![String::from("a"), String::from("b")]);
}

#[test]
fn end_to_end_capture() {
    let mut b = PastaBox::default();
    for s in ["", "foo", "foo", "bar"] {
        observe(&mut b, s);
    }
    assert_eq!(texts(&b), vec![String::from("foo"), String::from("bar")]);
}

#[test]
fn empty_observation_is_never_appended() {
    let mut b = PastaBox::default();
    observe(&mut b, "");
    assert_eq!(b.len(), 0);
    observe(&mut b, "x");
    observe(&mut b, "");
    assert_eq!(texts(&b), vec![String::from("x")]);
}

#[test]
fn failed_read_skips_the_cycle() {
    let mut b = PastaBox::default();
    b.poll_cycle(ClipboardRead::Unavailable);
    assert_eq!(b.len(), 0);
    // The failure did not disturb the tracker: the next good read appends.
    observe(&mut b, "a");
    b.poll_cycle(ClipboardRead::Unavailable);
    observe(&mut b, "a");
    assert_eq!(texts(&b), vec![String::from("a")]);
}

#[test]
fn auto_capture_off_blocks_appends() {
    let mut b = PastaBox::default();
    observe(&mut b, "a");
    b.toggle_auto_capture();
    observe(&mut b, "b");
    observe(&mut b, "c");
    assert_eq!(texts(&b), vec![String::from("a")]);
    // Re-enabling resumes capture relative to the value seen at toggle time:
    // "a" is still the last observation, so "a" is a skip and "b" an append.
    b.toggle_auto_capture();
    observe(&mut b, "a");
    assert_eq!(b.len(), 1);
    observe(&mut b, "b");
    assert_eq!(texts(&b), vec![String::from("a"), String::from("b")]);
}

#[test]
fn manual_add_does_not_update_the_tracker() {
    let mut b = PastaBox::default();
    b.add_manual(String::from("typed"));
    // The tracker still holds no observation, so the same text on the
    // clipboard is a fresh observation and is appended once more.
    observe(&mut b, "typed");
    assert_eq!(texts(&b), vec![String::from("typed"), String::from("typed")]);
}

#[test]
fn clear_keeps_the_tracker() {
    let mut b = PastaBox::default();
    observe(&mut b, "a");
    b.clear();
    // The tracker reflects clipboard content, not store content: an unchanged
    // clipboard is not re-captured after a clear.
    observe(&mut b, "a");
    assert_eq!(b.len(), 0);
    observe(&mut b, "b");
    assert_eq!(texts(&b), vec![String::from("b")]);
}

#[test]
fn interleaved_manual_adds_and_poller_appends_all_count() {
    // Three manual adds and two poller transitions, interleaved in commit
    // order: the final count is exactly 3 + 2 and nothing is lost.
    let mut b = PastaBox::default();
    b.add_manual(String::from("m1"));
    observe(&mut b, "p1");
    b.add_manual(String::from("m2"));
    observe(&mut b, "p2");
    b.add_manual(String::from("m3"));
    assert_eq!(b.len(), 5);
    assert_eq!(
        texts(&b),
        vec![
            String::from("m1"),
            String::from("p1"),
            String::from("m2"),
            String::from("p2"),
            String::from("m3"),
        ]
    );
}
