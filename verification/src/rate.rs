//! Per-connection rate limiting: a one-second window admits at most the
//! configured number of events; excess events are dropped and counted.

use vstd::prelude::*;

verus! {

/// The window is over once a full second has passed since it started.
pub fn should_reset_rate_window(window_start_ms: u64, now_ms: u64) -> (r: bool)
    ensures
        r == (now_ms >= window_start_ms + 1000),
{
    now_ms.saturating_sub(window_start_ms) >= 1000
}

/// One connection's admission window.
pub struct RateWindow {
    /// When the current window started.
    pub window_start_ms: u64,
    /// Events admitted since the window started.
    pub events: u32,
}

/// The window after the staleness check: a window older than one second is
/// replaced by a fresh one starting now.
pub open spec fn spec_reset(w: RateWindow, now_ms: u64) -> RateWindow {
    if now_ms >= w.window_start_ms + 1000 {
        RateWindow { window_start_ms: now_ms, events: 0 }
    } else {
        w
    }
}

/// Whether an event arriving now is admitted.
pub open spec fn spec_admitted(w: RateWindow, now_ms: u64, limit: u32) -> bool {
    spec_reset(w, now_ms).events < limit
}

/// The window after one arrival: an admitted event is counted, a refused one
/// leaves the count alone.
pub open spec fn spec_admit(w: RateWindow, now_ms: u64, limit: u32) -> RateWindow {
    let w2 = spec_reset(w, now_ms);
    if w2.events < limit {
        RateWindow { window_start_ms: w2.window_start_ms, events: (w2.events + 1) as u32 }
    } else {
        w2
    }
}

impl RateWindow {
    /// A fresh window starting now.
    pub fn new(now_ms: u64) -> (r: RateWindow)
        ensures
            r.window_start_ms == now_ms,
            r.events == 0,
    {
        RateWindow { window_start_ms: now_ms, events: 0 }
    }

    /// Admit or refuse one event arriving now. An admitted event never brings
    /// the window's count above the limit.
    pub fn admit_event(&mut self, now_ms: u64, limit: u32) -> (admitted: bool)
        ensures
            *final(self) == spec_admit(*old(self), now_ms, limit),
            admitted == spec_admitted(*old(self), now_ms, limit),
            admitted ==> final(self).events <= limit,
    {
        if should_reset_rate_window(self.window_start_ms, now_ms) {
            self.window_start_ms = now_ms;
            self.events = 0;
        }
        if self.events >= limit {
            false
        } else {
            self.events = self.events + 1;
            true
        }
    }
}

/// Within any single window the admitted count never exceeds the limit: a
/// window starts at zero, refusals leave the count alone, and an admission is
/// granted only while the count is below the limit.
pub proof fn lemma_rate_window_bounded(w: RateWindow, now_ms: u64, limit: u32)
    requires
        w.events <= limit,
    ensures
        spec_admit(w, now_ms, limit).events <= limit,
{
}

} // verus!
