//! Wall-clock accounting: elapsed time, pause state and the cycle counter.
//!
//! Instants are whole seconds on a monotonic clock supplied by the caller.
//! While running, a tick recomputes `elapsed` as `now - start`; pausing
//! freezes `elapsed`, and resuming moves `start` back to `now - elapsed` so
//! that later ticks continue from the frozen point without a jump.

use vstd::prelude::*;

verus! {

/// Mutable wall-clock accounting for the active timer.
#[derive(Clone, Copy, Debug, PartialEq, Eq, Structural)]
pub struct RunState {
    /// The instant the active timer started, adjusted on resume.
    pub start: u64,
    /// Whole seconds the active timer has been running, frozen while paused.
    pub elapsed: u64,
    /// Whether time is frozen.
    pub paused: bool,
    /// Completed full rotations through the timer sequence.
    pub cycles: u64,
    /// Rotations after which the loop stops; zero means unbounded.
    pub cycle_limit: u64,
}

/// The state after a tick at `now`: a paused state is untouched, a running
/// one has `elapsed` recomputed from `start`.
pub open spec fn spec_tick(r: RunState, now: u64) -> RunState
    recommends
        !r.paused ==> r.start <= now,
{
    if r.paused {
        r
    } else {
        RunState { elapsed: (now - r.start) as u64, ..r }
    }
}

/// The state after the active timer changes: the clock restarts at `now`.
/// Pause state and cycle count are untouched.
pub open spec fn spec_reset(r: RunState, now: u64) -> RunState {
    RunState { start: now, elapsed: 0, ..r }
}

/// The state after a pause: time freezes, nothing else moves. Pausing an
/// already paused state changes nothing.
pub open spec fn spec_pause(r: RunState) -> RunState {
    RunState { paused: true, ..r }
}

/// The state after a resume at `now`: `start` moves back by the frozen
/// `elapsed`, so later ticks continue seamlessly. Resuming a running state
/// changes nothing.
pub open spec fn spec_resume(r: RunState, now: u64) -> RunState
    recommends
        r.paused ==> r.elapsed <= now,
{
    if r.paused {
        RunState { start: (now - r.elapsed) as u64, paused: false, ..r }
    } else {
        r
    }
}

/// A cycle counter one step up, held at its greatest value rather than
/// wrapping.
pub open spec fn inc_cycles(cy: u64) -> u64 {
    if cy < u64::MAX {
        (cy + 1) as u64
    } else {
        u64::MAX
    }
}

/// A cycle counter one step down, clamped at zero: it never goes negative.
pub open spec fn dec_cycles(cy: u64) -> u64 {
    if cy > 0 {
        (cy - 1) as u64
    } else {
        0
    }
}

/// The cycle counter moved by one, clamped to zero from below and held at
/// its greatest value from above.
pub open spec fn spec_bump(r: RunState, delta: int) -> RunState
    recommends
        delta == 1 || delta == -1,
{
    if delta == 1 {
        RunState { cycles: inc_cycles(r.cycles), ..r }
    } else {
        RunState { cycles: dec_cycles(r.cycles), ..r }
    }
}

/// True when a cycle limit is set and the counter has reached it.
pub open spec fn spec_limit_reached(r: RunState) -> bool {
    r.cycle_limit != 0 && r.cycles >= r.cycle_limit
}

impl RunState {
    /// A fresh state: clock started at `now`, nothing elapsed, running,
    /// no completed cycles.
    pub fn new(cycle_limit: u64, now: u64) -> (r: RunState)
        ensures
            r == (RunState { start: now, elapsed: 0, paused: false, cycles: 0, cycle_limit }),
    {
        RunState { start: now, elapsed: 0, paused: false, cycles: 0, cycle_limit }
    }

    /// Restarts the clock at `now`; pause state and cycles are untouched.
    pub fn reset(&mut self, now: u64)
        ensures
            *final(self) == spec_reset(*old(self), now),
    {
        self.start = now;
        self.elapsed = 0;
    }

    /// One periodic time check: a no-op while paused, otherwise `elapsed`
    /// becomes `now - start`.
    pub fn tick(&mut self, now: u64)
        requires
            !old(self).paused ==> old(self).start <= now,
        ensures
            *final(self) == spec_tick(*old(self), now),
    {
        if !self.paused {
            self.elapsed = now - self.start;
        }
    }

    /// Freezes time. Idempotent.
    pub fn pause(&mut self)
        ensures
            *final(self) == spec_pause(*old(self)),
    {
        self.paused = true;
    }

    /// Unfreezes time at `now`, realigning `start` so that `elapsed`
    /// continues from its frozen value. Idempotent.
    pub fn resume(&mut self, now: u64)
        requires
            old(self).paused ==> old(self).elapsed <= now,
        ensures
            *final(self) == spec_resume(*old(self), now),
    {
        if self.paused {
            self.start = now - self.elapsed;
            self.paused = false;
        }
    }

    /// Pauses when running, resumes when paused.
    pub fn toggle_pause(&mut self, now: u64)
        requires
            old(self).paused ==> old(self).elapsed <= now,
        ensures
            *final(self) == if old(self).paused {
                spec_resume(*old(self), now)
            } else {
                spec_pause(*old(self))
            },
    {
        if self.paused {
            self.resume(now);
        } else {
            self.pause();
        }
    }

    /// Moves the cycle counter by one step up or down, clamped at zero.
    pub fn bump_cycle(&mut self, delta: i64)
        requires
            delta == 1 || delta == -1,
        ensures
            *final(self) == spec_bump(*old(self), delta as int),
    {
        if delta == 1 {
            if self.cycles < u64::MAX {
                self.cycles = self.cycles + 1;
            }
        } else {
            if self.cycles > 0 {
                self.cycles = self.cycles - 1;
            }
        }
    }

    /// True when a cycle limit is set and the counter has reached it.
    pub fn limit_reached(&self) -> (b: bool)
        ensures
            b == spec_limit_reached(*self),
    {
        self.cycle_limit != 0 && self.cycles >= self.cycle_limit
    }
}

/// Pause freezes time: take a running state whose elapsed value is `E` and
/// pause it. However many ticks happen at whatever later instants, the
/// elapsed value stays `E`. Resuming at `t` and ticking `d` seconds later
/// yields elapsed `E + d`.
pub proof fn lemma_pause_freezes_time(r: RunState, w: u64, t: u64, d: u64)
    requires
        !r.paused,
        t + d <= u64::MAX,
        r.elapsed + d <= u64::MAX,
        r.elapsed <= t,
    ensures
        spec_tick(spec_pause(r), w).elapsed == r.elapsed,
        spec_tick(spec_pause(r), w).paused,
        spec_tick(spec_resume(spec_pause(r), t), (t + d) as u64).elapsed == r.elapsed + d,
{
}

} // verus!
