//! Timestamps measured from midnight on 1 January 1980.
use vstd::prelude::*;

verus! {

/// Number of seconds passed since midnight on 1 January 1980, neglecting leap
/// seconds. This is NOT the same as POSIX time.
#[derive(Copy, Clone, Debug, Eq, PartialEq, Structural)]
pub struct Timestamp(pub u32);

/// Number of 100ns increments since midnight on 1 January 1980.
#[derive(Copy, Clone, Debug, Eq, PartialEq, Structural)]
pub struct TimestampHires(pub u64);

impl TimestampHires {
    pub fn set(&mut self, value: u64)
        ensures
            final(self).0 == value,
    {
        self.0 = value;
    }

    pub fn increment(&mut self, value: u64)
        requires
            old(self).0 + value <= u64::MAX,
        ensures
            final(self).0 == old(self).0 + value,
    {
        self.0 = self.0 + value;
    }

    pub fn in_ms(&self) -> (r: u64)
        ensures
            r == self.0 / 10000,
    {
        self.0 / 10000
    }

    pub fn in_seconds(&self) -> (r: u64)
        ensures
            r == self.0 / 10000000,
    {
        self.0 / 10000000
    }

    /// The whole seconds of this time, truncated to 32 bits.
    pub fn to_timestamp(&self) -> (r: Timestamp)
        ensures
            r.0 == (self.0 / 10000000) as u32,
    {
        Timestamp(self.in_seconds() as u32)
    }

    pub fn from_timestamp(ts: Timestamp) -> (r: TimestampHires)
        ensures
            r.0 == ts.0 * 10000000,
    {
        TimestampHires(ts.0 as u64 * 10000000)
    }

    /// The sum of two times.
    pub fn sum(self, other: TimestampHires) -> (r: TimestampHires)
        requires
            self.0 + other.0 <= u64::MAX,
        ensures
            r.0 == self.0 + other.0,
    {
        TimestampHires(self.0 + other.0)
    }
}

} // verus!
