//! The pacing of the event loop. The program waits for key presses and
//! ticks with this interval.

use vstd::prelude::*;

verus! {

/// Drives the event stream. `tick_ms` controls the UI refresh interval.
pub struct EventLoop {
    tick_ms: u64,
}

impl EventLoop {
    /// An event loop that emits a tick after `tick_ms` milliseconds without
    /// a key press.
    pub fn new(tick_ms: u64) -> (r: Self)
        ensures
            r.tick_ms() == tick_ms,
    {
        EventLoop { tick_ms }
    }

    /// The tick interval in milliseconds.
    pub closed spec fn tick_ms(&self) -> u64 {
        self.tick_ms
    }

    /// The tick interval in milliseconds.
    pub fn tick_rate_ms(&self) -> (r: u64)
        ensures
            r == self.tick_ms(),
    {
        self.tick_ms
    }
}

} // verus!
