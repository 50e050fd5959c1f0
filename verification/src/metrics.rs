//! Typing-speed metrics: a monotone cumulative typed-character count and a
//! stepped speed readout recomputed once per fixed 20-second window.
//! Between window boundaries the readout holds its last computed value; it
//! neither decays nor interpolates.

use vstd::prelude::*;

verus! {

/// The wall-clock length of one metrics window, in seconds.
pub open spec fn spec_window_seconds() -> u64 {
    20u64
}

/// The cumulative typed-character count with its 20-second-windowed
/// characters-per-minute and words-per-minute snapshot.
pub struct MetricsTracker {
    /// Characters typed correctly since the session started.
    pub typed_chars: u32,
    /// The value of `typed_chars` when the current window opened.
    pub window_chars: u32,
    /// The wall-clock second at which the current window opened.
    pub window_start: u64,
    /// Characters per minute over the last completed window.
    pub cpm: u32,
    /// Words per minute over the last completed window.
    pub wpm: u32,
}

impl MetricsTracker {
    /// The count never falls behind the snapshot taken at the window start.
    pub open spec fn wf(self) -> bool {
        self.typed_chars >= self.window_chars
    }

    /// A window recomputation is owed once 20 seconds have passed since the
    /// window opened.
    pub open spec fn window_due(self, now: u64) -> bool {
        now >= self.window_start && now - self.window_start >= spec_window_seconds()
    }

    /// Fresh metrics: everything zeroed, the first window opening at second
    /// zero.
    pub fn new() -> (r: MetricsTracker)
        ensures
            r.wf(),
            r.typed_chars == 0,
            r.window_chars == 0,
            r.window_start == 0,
            r.cpm == 0,
            r.wpm == 0,
    {
        MetricsTracker { typed_chars: 0, window_chars: 0, window_start: 0, cpm: 0, wpm: 0 }
    }

    /// Counts one correctly typed character.
    pub fn record_char(&mut self)
        requires
            old(self).wf(),
            old(self).typed_chars < u32::MAX,
        ensures
            final(self).wf(),
            final(self).typed_chars == old(self).typed_chars + 1,
            final(self).window_chars == old(self).window_chars,
            final(self).window_start == old(self).window_start,
            final(self).cpm == old(self).cpm,
            final(self).wpm == old(self).wpm,
    {
        self.typed_chars = self.typed_chars + 1;
    }

    /// When at least 20 seconds have elapsed since the window opened,
    /// recomputes `cpm` as three times the characters typed in the window
    /// and `wpm` as a fifth of that (truncating), then opens a new window at
    /// `now`; otherwise leaves every field unchanged.
    pub fn tick(&mut self, now: u64)
        requires
            old(self).wf(),
            3 * (old(self).typed_chars - old(self).window_chars) <= u32::MAX,
        ensures
            final(self).wf(),
            final(self).typed_chars == old(self).typed_chars,
            old(self).window_due(now) ==> final(self).cpm == 3 * (old(self).typed_chars - old(
                self,
            ).window_chars) && final(self).wpm == final(self).cpm / 5 && final(self).window_chars
                == old(self).typed_chars && final(self).window_start == now,
            !old(self).window_due(now) ==> *final(self) == *old(self),
    {
        if now >= self.window_start && now - self.window_start >= 20 {
            let diff = self.typed_chars - self.window_chars;
            self.cpm = diff * 3;
            self.wpm = self.cpm / 5;
            self.window_chars = self.typed_chars;
            self.window_start = now;
        }
    }
}

} // verus!
