//! The pausable simulation clock, counted in microseconds.
use vstd::prelude::*;

verus! {

/// Elapsed and per-frame time. While paused, a tick advances nothing.
#[derive(Clone, Copy, Debug, PartialEq, Eq, Structural)]
pub struct Clock {
    pub elapsed: u64,
    pub delta: u64,
    pub paused: bool,
}

/// The clock after one tick in which `measured` microseconds passed.
pub open spec fn ticked(c: Clock, measured: u64) -> Clock {
    let delta: u64 = if c.paused { 0 } else { measured };
    Clock { elapsed: (c.elapsed + delta) as u64, delta, paused: c.paused }
}

/// A tick can be taken without the elapsed time leaving `u64`.
pub open spec fn can_tick(c: Clock, measured: u64) -> bool {
    c.paused || c.elapsed + measured <= u64::MAX
}

impl Clock {
    /// A running clock at time zero.
    pub fn new() -> (r: Clock)
        ensures
            r == (Clock { elapsed: 0, delta: 0, paused: false }),
    {
        Clock { elapsed: 0, delta: 0, paused: false }
    }

    /// Advances by `measured` microseconds, or by nothing while paused.
    pub fn tick(&mut self, measured: u64)
        requires
            can_tick(*old(self), measured),
        ensures
            *final(self) == ticked(*old(self), measured),
    {
        self.delta = if self.paused { 0 } else { measured };
        self.elapsed = self.elapsed + self.delta;
    }

    pub fn pause(&mut self)
        ensures
            *final(self) == (Clock { paused: true, ..*old(self) }),
    {
        self.paused = true;
    }

    pub fn resume(&mut self)
        ensures
            *final(self) == (Clock { paused: false, ..*old(self) }),
    {
        self.paused = false;
    }

    pub fn is_paused(&self) -> (r: bool)
        ensures
            r == self.paused,
    {
        self.paused
    }

    /// The time that passed in the last tick.
    pub fn delta(&self) -> (r: u64)
        ensures
            r == self.delta,
    {
        self.delta
    }

    /// The time that passed while the clock ran.
    pub fn elapsed(&self) -> (r: u64)
        ensures
            r == self.elapsed,
    {
        self.elapsed
    }
}

} // verus!
