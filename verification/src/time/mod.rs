//! Tracking of system time.
use vstd::prelude::*;

pub mod date;
pub mod system;
pub mod timestamp;

verus! {

/// Time in number of 100ns increments since midnight on 1 January 1980.
#[derive(Copy, Clone, Debug, Eq, PartialEq, Structural)]
pub struct SystemTime(pub u64);

impl SystemTime {
    pub fn new(value: u64) -> (r: SystemTime)
        ensures
            r.0 == value,
    {
        SystemTime(value)
    }

    pub fn set(&mut self, value: u64)
        ensures
            final(self).0 == value,
    {
        self.0 = value;
    }

    pub fn increment(&mut self, value: u64)
        requires
            old(self).0 + value <= u64::MAX,
        ensures
            final(self).0 == old(self).0 + value,
    {
        self.0 = self.0 + value;
    }

    pub fn in_ms(&self) -> (r: u64)
        ensures
            r == self.0 / 10000,
    {
        self.0 / 10000
    }

    pub fn in_seconds(&self) -> (r: u64)
        ensures
            r == self.0 / 10000000,
    {
        self.0 / 10000000
    }

    /// The sum of two times.
    pub fn sum(self, other: SystemTime) -> (r: SystemTime)
        requires
            self.0 + other.0 <= u64::MAX,
        ensures
            r.0 == self.0 + other.0,
    {
        SystemTime(self.0 + other.0)
    }
}

/// A known fixed point in time, and the offset from it kept by the timer.
pub struct TimeState {
    pub known_time: SystemTime,
    pub time_offset: SystemTime,
}

impl TimeState {
    pub fn new() -> (r: TimeState)
        ensures
            r.known_time.0 == 0,
            r.time_offset.0 == 0,
    {
        TimeState { known_time: SystemTime::new(0), time_offset: SystemTime::new(0) }
    }
}

/// Set the known point in time, and clear the offset.
pub fn reset_known_time(state: &mut TimeState, time: u64)
    ensures
        final(state).known_time.0 == time,
        final(state).time_offset.0 == 0,
{
    state.known_time.set(time);
    state.time_offset.set(0);
}

/// The current time: the known point plus the offset.
pub fn get_system_time(state: &TimeState) -> (r: SystemTime)
    requires
        state.known_time.0 + state.time_offset.0 <= u64::MAX,
    ensures
        r.0 == state.known_time.0 + state.time_offset.0,
{
    let known = state.known_time;
    let offset = state.time_offset;
    known.sum(offset)
}

/// Whole seconds passed since the known point.
pub fn get_offset_seconds(state: &TimeState) -> (r: u64)
    ensures
        r == state.time_offset.0 / 10000000,
{
    state.time_offset.in_seconds()
}

/// Advance the offset by `delta` 100ns increments.
pub fn increment_offset(state: &mut TimeState, delta: u64)
    requires
        old(state).time_offset.0 + delta <= u64::MAX,
    ensures
        final(state).time_offset.0 == old(state).time_offset.0 + delta,
        final(state).known_time == old(state).known_time,
{
    state.time_offset.increment(delta);
}

} // verus!
