//! Inactivity safety timer. Every local propeller preview edit stamps the
//! current time; a background tick asks whether the stamp is set and stale,
//! and if so the session reverts every known propeller to neutral and the
//! stamp is cleared. A later edit restarts the window.

use vstd::prelude::*;

verus! {

/// How long, in milliseconds, a propeller may sit in a preview state with
/// no further edits before the session reverts it to neutral.
pub const PREVIEW_TIMEOUT_MILLIS: u64 = 1000;

/// The nullable "last propeller preview" timestamp.
pub struct SafetyTimer {
    pub last_preview_millis: Option<u64>,
}

impl SafetyTimer {
    pub fn new() -> (r: Self)
        ensures
            r.last_preview_millis is None,
    {
        SafetyTimer { last_preview_millis: None }
    }

    /// A propeller preview edit happened now: the window restarts.
    pub fn note_edit(&mut self, now_millis: u64)
        ensures
            final(self).last_preview_millis == Some(now_millis),
    {
        self.last_preview_millis = Some(now_millis);
    }

    /// Whether the revert is due: a stamp is set and more than the timeout
    /// has elapsed since.
    pub open spec fn spec_expired(&self, now_millis: u64) -> bool {
        match self.last_preview_millis {
            Some(t) => now_millis >= t && now_millis - t > PREVIEW_TIMEOUT_MILLIS,
            None => false,
        }
    }

    /// One wake-up of the timer loop: reports whether the revert is due,
    /// and clears the stamp exactly when it is.
    pub fn tick(&mut self, now_millis: u64) -> (expired: bool)
        ensures
            expired == old(self).spec_expired(now_millis),
            final(self).last_preview_millis == if expired {
                None
            } else {
                old(self).last_preview_millis
            },
    {
        match self.last_preview_millis {
            Some(t) => {
                if now_millis >= t && now_millis - t > PREVIEW_TIMEOUT_MILLIS {
                    self.last_preview_millis = None;
                    true
                } else {
                    false
                }
            },
            None => false,
        }
    }
}

} // verus!
