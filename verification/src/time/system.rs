//! System time: a known fixed point in time (sourced from the CMOS RTC) and
//! an offset from it, regularly advanced by the programmable timer.
use vstd::prelude::*;
use super::date::{timestamp_of, DateTime};
use super::timestamp::{Timestamp, TimestampHires};

verus! {

pub const HUNDRED_NS_PER_TICK: u64 = 100002;
pub const MS_PER_TICK: usize = 10;

/// The two values from which system time is computed.
pub struct SystemClock {
    /// A known fixed point in time
    pub known_time: TimestampHires,
    /// Time passed since the known point
    pub time_offset: TimestampHires,
}

impl SystemClock {
    pub fn new() -> (r: SystemClock)
        ensures
            r.known_time.0 == 0,
            r.time_offset.0 == 0,
    {
        SystemClock { known_time: TimestampHires(0), time_offset: TimestampHires(0) }
    }
}

/// Set the known point in time, and clear the offset.
pub fn reset_known_time(clock: &mut SystemClock, time: u64)
    ensures
        final(clock).known_time.0 == time,
        final(clock).time_offset.0 == 0,
{
    clock.known_time.set(time);
    clock.time_offset.set(0);
}

/// The current time: the known point plus the offset.
pub fn get_system_time(clock: &SystemClock) -> (r: TimestampHires)
    requires
        clock.known_time.0 + clock.time_offset.0 <= u64::MAX,
    ensures
        r.0 == clock.known_time.0 + clock.time_offset.0,
{
    let known = clock.known_time;
    let offset = clock.time_offset;
    known.sum(offset)
}

/// Whole seconds passed since the known point.
pub fn get_offset_seconds(clock: &SystemClock) -> (r: u64)
    ensures
        r == clock.time_offset.0 / 10000000,
{
    clock.time_offset.in_seconds()
}

/// Advance the offset by `delta` 100ns increments.
pub fn increment_offset(clock: &mut SystemClock, delta: u64)
    requires
        old(clock).time_offset.0 + delta <= u64::MAX,
    ensures
        final(clock).time_offset.0 == old(clock).time_offset.0 + delta,
        final(clock).known_time == old(clock).known_time,
{
    clock.time_offset.increment(delta);
}

/// Set system time from the date and time read from the real-time clock.
pub fn initialize_from_rtc(clock: &mut SystemClock, rtc_time: DateTime)
    requires
        1 <= rtc_time.date.month <= 12,
        timestamp_of(rtc_time) <= u32::MAX,
    ensures
        final(clock).known_time.0 == timestamp_of(rtc_time) * 10000000,
        final(clock).time_offset.0 == 0,
{
    let timestamp = Timestamp::from_datetime(rtc_time);
    let system_time = TimestampHires::from_timestamp(timestamp);
    reset_known_time(clock, system_time.0);
}

/// The sum of the timer's increments.
pub open spec fn total(deltas: Seq<u64>) -> int
    decreases deltas.len(),
{
    if deltas.len() == 0 { 0 } else { total(deltas.drop_last()) + deltas.last() }
}

/// System time reads back the time it was last reset to, advanced by every
/// increment of the offset made since: `clocks[0]` is the clock as a reset
/// to `time` leaves it, and each next clock is the one before after
/// `increment_offset(deltas[i])`. The last one reads `time` plus the sum of
/// the increments, and its offset in seconds is that sum in seconds.
pub proof fn lemma_time_since_reset(clocks: Seq<SystemClock>, deltas: Seq<u64>, time: u64)
    requires
        clocks.len() == deltas.len() + 1,
        clocks[0].known_time.0 == time,
        clocks[0].time_offset.0 == 0,
        forall|i: int| 0 <= i < deltas.len() ==> (#[trigger] clocks[i + 1]).known_time == clocks[i].known_time
            && clocks[i + 1].time_offset.0 == clocks[i].time_offset.0 + deltas[i],
    ensures
        clocks.last().known_time.0 == time,
        clocks.last().time_offset.0 == total(deltas),
        clocks.last().known_time.0 + clocks.last().time_offset.0 == time + total(deltas),
        clocks.last().time_offset.0 / 10000000 == total(deltas) / 10000000,
    decreases deltas.len(),
{
    if deltas.len() > 0 {
        let n = deltas.len() - 1;
        lemma_time_since_reset(clocks.drop_last(), deltas.drop_last(), time);
        assert(clocks.drop_last().last() == clocks[n]);
        assert(clocks.last() == clocks[n + 1]);
        assert forall|i: int| 0 <= i < n implies (#[trigger] clocks.drop_last()[i + 1]).known_time
            == clocks.drop_last()[i].known_time by {
            assert(clocks[i + 1].known_time == clocks[i].known_time);
        }
    }
}

} // verus!
