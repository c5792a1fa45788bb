//! Putting the terminal back the way it was found: which steps a cleanup
//! still owes, so that it runs exactly once.
use vstd::prelude::*;

verus! {

/// Whether the terminal still needs restoring, and whether keyboard
/// enhancement flags were pushed and must be popped.
pub struct TerminalCleanupGuard {
    active: bool,
    keyboard_enhancement_enabled: bool,
}

/// The steps a restore performs, in order: popping the keyboard
/// enhancement flags when they were pushed, then leaving raw mode, then
/// leaving the alternate screen and showing the cursor.
#[derive(Clone, Copy, Debug, PartialEq, Eq, Structural)]
pub struct RestorePlan {
    pub pop_keyboard_enhancement: bool,
}

impl TerminalCleanupGuard {
    /// A guard for a terminal in raw mode.
    pub fn new() -> (g: TerminalCleanupGuard)
        ensures
            g.is_active(),
            !g.enhancement_pushed(),
    {
        TerminalCleanupGuard { active: true, keyboard_enhancement_enabled: false }
    }

    /// Whether the terminal still needs restoring.
    pub closed spec fn is_active(&self) -> bool {
        self.active
    }

    /// Whether keyboard enhancement flags are pushed.
    pub closed spec fn enhancement_pushed(&self) -> bool {
        self.keyboard_enhancement_enabled
    }

    /// Records that keyboard enhancement flags were pushed.
    pub fn keyboard_enhancement_pushed(&mut self)
        ensures
            final(self).is_active() == old(self).is_active(),
            final(self).enhancement_pushed(),
    {
        self.keyboard_enhancement_enabled = true;
    }

    /// The steps the restore owes, if any; afterwards nothing is owed, so a
    /// second restore does nothing.
    pub fn take_restore_plan(&mut self) -> (plan: Option<RestorePlan>)
        ensures
            plan == if old(self).is_active() {
                Some(RestorePlan { pop_keyboard_enhancement: old(self).enhancement_pushed() })
            } else {
                None
            },
            !final(self).is_active(),
            old(self).is_active() ==> !final(self).enhancement_pushed(),
            !old(self).is_active() ==> final(self).enhancement_pushed() == old(self).enhancement_pushed(),
    {
        if !self.active {
            return None;
        }
        let plan = RestorePlan { pop_keyboard_enhancement: self.keyboard_enhancement_enabled };
        self.keyboard_enhancement_enabled = false;
        self.active = false;
        Some(plan)
    }
}

} // verus!
