use barepass::clipboard::{ClearStep, ClipboardTracker, CLEAR_AFTER_NANOS};

#[test]
fn copied_text_is_due_after_thirty_seconds() {
    let mut tracker = ClipboardTracker::new();
    assert!(!tracker.due(u128::MAX));
    tracker.copied("secret", 5);
    assert!(!tracker.due(5 + CLEAR_AFTER_NANOS - 1));
    assert!(tracker.due(5 + CLEAR_AFTER_NANOS));
}

#[test]
fn only_our_own_text_is_cleared() {
    let mut tracker = ClipboardTracker::new();
    assert_eq!(tracker.clear_step(), ClearStep::Done(false));

    tracker.copied("secret", 0);
    assert_eq!(tracker.clear_step(), ClearStep::ReadClipboard);
    assert_eq!(tracker.clipboard_read(Some("something else")), ClearStep::Done(false));
    assert_eq!(tracker.clear_step(), ClearStep::Done(false));

    tracker.copied("secret", 0);
    assert_eq!(tracker.clear_step(), ClearStep::ReadClipboard);
    assert_eq!(tracker.clipboard_read(None), ClearStep::Done(false));

    tracker.copied("secret", 0);
    assert_eq!(tracker.clipboard_read(Some("secret")), ClearStep::ClearClipboard);
    assert_eq!(tracker.clipboard_cleared(Err("busy".into())), Err("could not clear system clipboard: busy".into()));
    assert_eq!(tracker.clear_step(), ClearStep::ReadClipboard);
    assert_eq!(tracker.clipboard_read(Some("secret")), ClearStep::ClearClipboard);
    assert_eq!(tracker.clipboard_cleared(Ok(())), Ok(true));
    assert!(!tracker.due(u128::MAX));
    assert_eq!(tracker.clear_step(), ClearStep::Done(false));
}
