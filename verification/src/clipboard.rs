//! Which copied text the application still owns on the system clipboard,
//! and when and whether to clear it.
//!
//! The clipboard itself is reached by the host; this tracker decides. Text
//! copied by the application is cleared after a delay, and only while the
//! clipboard still holds exactly that text.
use vstd::prelude::*;

use crate::text::{message_with_text, string_clear, zeroize_string};

verus! {

/// How long copied text may stay on the clipboard, in nanoseconds.
pub const CLEAR_AFTER_NANOS: u128 = 30_000_000_000;

/// The text last copied by the application (empty when none is held) and
/// when it is due to be cleared, in nanoseconds on the host's monotonic
/// clock.
pub struct ClipboardTracker {
    held: String,
    clear_at: Option<u128>,
}

/// The abstract state of a tracker.
pub struct TrackerView {
    pub held: Seq<char>,
    pub clear_at: Option<u128>,
}

impl View for ClipboardTracker {
    type V = TrackerView;

    closed spec fn view(&self) -> TrackerView {
        TrackerView { held: self.held@, clear_at: self.clear_at }
    }
}

/// The next step of clearing held text.
#[derive(Clone, Copy, Debug, PartialEq, Eq, Structural)]
pub enum ClearStep {
    /// Clearing is over; `true` when the clipboard was cleared.
    Done(bool),
    /// Read the clipboard text and report it with `clipboard_read`.
    ReadClipboard,
    /// Clear the clipboard and report with `clipboard_cleared`.
    ClearClipboard,
}

/// A tracker that owns nothing.
pub open spec fn forgotten() -> TrackerView {
    TrackerView { held: Seq::empty(), clear_at: None }
}

impl ClipboardTracker {
    /// A tracker with nothing copied.
    pub fn new() -> (t: ClipboardTracker)
        ensures
            t@ == forgotten(),
    {
        ClipboardTracker { held: String::new(), clear_at: None }
    }

    /// Records text just copied at `now`: it is due to be cleared 30 seconds
    /// later.
    pub fn copied(&mut self, text: &str, now: u128)
        requires
            now + CLEAR_AFTER_NANOS <= u128::MAX,
        ensures
            final(self)@ == (TrackerView { held: text@, clear_at: Some((now + CLEAR_AFTER_NANOS) as u128) }),
    {
        zeroize_string(&mut self.held);
        self.held.append(text);
        self.clear_at = Some(now + CLEAR_AFTER_NANOS);
    }

    /// Whether held text is due to be cleared at `now`.
    pub fn due(&self, now: u128) -> (b: bool)
        ensures
            b == match self@.clear_at {
                Some(t) => now >= t,
                None => false,
            },
    {
        match self.clear_at {
            Some(t) => now >= t,
            None => false,
        }
    }

    /// Starts clearing: with nothing held there is nothing to do;
    /// otherwise the clipboard has to be read first.
    pub fn clear_step(&mut self) -> (step: ClearStep)
        ensures
            old(self)@.held.len() == 0 ==> final(self)@ == (TrackerView {
                clear_at: None,
                ..old(self)@
            }) && step == ClearStep::Done(false),
            old(self)@.held.len() != 0 ==> final(self)@ == old(self)@ && step == ClearStep::ReadClipboard,
    {
        if self.held.as_str().is_empty() {
            self.clear_at = None;
            return ClearStep::Done(false);
        }
        ClearStep::ReadClipboard
    }

    /// Takes the clipboard text read by the host (`None` when it could not be
    /// read). Only when it is still the held text is the clipboard cleared;
    /// otherwise the held text is forgotten.
    pub fn clipboard_read(&mut self, current: Option<&str>) -> (step: ClearStep)
        ensures
            match current {
                Some(c) if c@ == old(self)@.held => final(self)@ == old(self)@ && step
                    == ClearStep::ClearClipboard,
                _ => final(self)@ == forgotten() && step == ClearStep::Done(false),
            },
    {
        match current {
            Some(c) => {
                let mut probe = String::from_str(c);
                let same = probe == self.held;
                zeroize_string(&mut probe);
                if same {
                    return ClearStep::ClearClipboard;
                }
            },
            None => {},
        }
        self.forget();
        ClearStep::Done(false)
    }

    /// Takes the host's report on clearing the clipboard: on success the
    /// held text is forgotten; on failure it is kept and the error is
    /// passed on.
    pub fn clipboard_cleared(&mut self, result: Result<(), String>) -> (r: Result<bool, String>)
        ensures
            match result {
                Ok(_) => final(self)@ == forgotten() && r == Ok::<bool, String>(true),
                Err(e) => final(self)@ == old(self)@ && (r matches Err(m) && m@ == "could not clear system clipboard: "@
                    + e@),
            },
    {
        match result {
            Ok(()) => {
                self.forget();
                Ok(true)
            },
            Err(e) => Err(message_with_text("could not clear system clipboard: ", e.as_str())),
        }
    }

    /// Wipes and forgets the held text.
    fn forget(&mut self)
        ensures
            final(self)@ == forgotten(),
    {
        zeroize_string(&mut self.held);
        string_clear(&mut self.held);
        self.clear_at = None;
    }
}

} // verus!
