//! Conversion between timestamps and calendar dates. Years are counted from
//! 1980; every fourth year from 1980 is a leap year (2000 is one, and 2100 is
//! out of range).
use vstd::prelude::*;
use super::timestamp::Timestamp;

verus! {

#[derive(Copy, Clone, Debug, Eq, PartialEq, Structural)]
pub struct Date {
    pub day: u8,
    pub month: u8,
    /// Years since 1980
    pub year: u8,
}

#[derive(Copy, Clone, Debug, Eq, PartialEq, Structural)]
pub struct Time {
    pub hours: u8,
    pub minutes: u8,
    pub seconds: u8,
}

#[derive(Copy, Clone, Debug, Eq, PartialEq, Structural)]
pub struct DateTime {
    pub date: Date,
    pub time: Time,
}

pub const SECONDS_IN_DAY: u32 = 86400;

/// Day of the (non-leap) year on which month `m` (0-based) starts.
pub open spec fn month_start(m: int) -> int {
    if m <= 0 { 0 }
    else if m == 1 { 31 }
    else if m == 2 { 59 }
    else if m == 3 { 90 }
    else if m == 4 { 120 }
    else if m == 5 { 151 }
    else if m == 6 { 181 }
    else if m == 7 { 212 }
    else if m == 8 { 243 }
    else if m == 9 { 273 }
    else if m == 10 { 304 }
    else { 334 }
}

/// Day of the year on which month `m` (0-based) starts, in a leap year if
/// `leap`.
pub open spec fn month_start_in(m: int, leap: bool) -> int {
    month_start(m) + if leap && m >= 2 { 1int } else { 0int }
}

/// Day of the (non-leap) year on which month `m` (0-based) starts.
pub fn month_start_offset(m: usize) -> (r: u32)
    requires
        m < 12,
    ensures
        r == month_start(m as int),
{
    match m {
        0 => 0,
        1 => 31,
        2 => 59,
        3 => 90,
        4 => 120,
        5 => 151,
        6 => 181,
        7 => 212,
        8 => 243,
        9 => 273,
        10 => 304,
        _ => 334,
    }
}

/// Number of whole years in `days` days, at 365.25 days per year.
pub fn year_offset_from_days(days: u32) -> (r: u32)
    requires
        days * 100 <= u32::MAX,
    ensures
        r == (days * 100) / 36525,
{
    let hundredths = days * 100;
    hundredths / 36525
}

/// Day of the year for a count of days since 1 January 1980: the position in
/// the four-year cycle, where the first year of the cycle has 366 days.
pub open spec fn day_of_year(days: int) -> int {
    let quadrennial_days = days % 1461;
    if quadrennial_days > 365 { (quadrennial_days - 366) % 365 } else { quadrennial_days }
}

/// The month (1-based) in which day `yd` of the year falls.
pub open spec fn month_of(yd: int, leap: bool) -> int {
    if yd < month_start_in(1, leap) { 1 }
    else if yd < month_start_in(2, leap) { 2 }
    else if yd < month_start_in(3, leap) { 3 }
    else if yd < month_start_in(4, leap) { 4 }
    else if yd < month_start_in(5, leap) { 5 }
    else if yd < month_start_in(6, leap) { 6 }
    else if yd < month_start_in(7, leap) { 7 }
    else if yd < month_start_in(8, leap) { 8 }
    else if yd < month_start_in(9, leap) { 9 }
    else if yd < month_start_in(10, leap) { 10 }
    else if yd < month_start_in(11, leap) { 11 }
    else { 12 }
}

/// The calendar date and time of day of a timestamp.
pub open spec fn datetime_of(ts: int) -> DateTime {
    let days = ts / 86400;
    let raw_time = ts % 86400;
    let year = (days * 100) / 36525;
    let leap = year % 4 == 0;
    let yd = day_of_year(days);
    let month = month_of(yd, leap);
    DateTime {
        date: Date {
            day: (yd + 1 - month_start_in(month - 1, leap)) as u8,
            month: month as u8,
            year: year as u8,
        },
        time: Time {
            hours: (raw_time / 3600) as u8,
            minutes: ((raw_time / 60) % 60) as u8,
            seconds: (raw_time % 60) as u8,
        },
    }
}

/// The timestamp computed for a date and time.
pub open spec fn timestamp_of(dt: DateTime) -> int {
    let year = dt.date.year as int;
    let days = (year / 4) * 1461 + (year % 4) * 365 + (if year % 4 > 0 { 1int } else { 0int })
        + month_start(dt.date.month - 1) + dt.date.day;
    days * 86400 + dt.time.hours * 3600 + dt.time.minutes * 60 + dt.time.seconds
}

/// The number of days in month `month` (1-based): thirty days have
/// September, April, June and November; February has 28, or 29 in a leap
/// year; every other month has 31.
pub open spec fn days_in_month(month: int, leap: bool) -> int {
    if month == 2 {
        if leap { 29 } else { 28 }
    } else if month == 4 || month == 6 || month == 9 || month == 11 {
        30
    } else {
        31
    }
}

/// The number of days in the months before month `month` (1-based).
pub open spec fn days_before(month: int, leap: bool) -> int
    decreases month,
{
    if month <= 1 { 0 } else { days_before(month - 1, leap) + days_in_month(month - 1, leap) }
}

/// Each month starts on the day of the year that follows all the days of
/// the months before it, and a year has 365 days, or 366 in a leap year.
pub proof fn lemma_month_starts(leap: bool)
    ensures
        forall|m: int| 0 <= m < 12 ==> #[trigger] month_start_in(m, leap) == days_before(m + 1, leap),
        days_before(13, leap) == if leap { 366int } else { 365int },
{
    reveal_with_fuel(days_before, 14);
    assert forall|m: int| 0 <= m < 12 implies #[trigger] month_start_in(m, leap) == days_before(m + 1, leap) by {
        reveal_with_fuel(days_before, 14);
    }
}

/// A timestamp's year is a leap year exactly when its day falls in the first
/// year of a four-year cycle.
proof fn lemma_leap_year_position(days: int)
    requires
        0 <= days,
    ensures
        (((days * 100) / 36525) % 4 == 0) == (days % 1461 <= 365),
        (days * 100) / 36525 == 4 * (days / 1461) + ((days % 1461) * 100) / 36525,
{
    let q = days / 1461;
    let r = days % 1461;
    assert(days == 1461 * q + r && 0 <= r < 1461) by (nonlinear_arith)
        requires 0 <= days, q == days / 1461, r == days % 1461;
    assert(days * 100 == 36525 * (4 * q) + r * 100) by (nonlinear_arith)
        requires days == 1461 * q + r;
    assert((days * 100) / 36525 == 4 * q + (r * 100) / 36525) by (nonlinear_arith)
        requires days * 100 == 36525 * (4 * q) + r * 100, 0 <= r, q >= 0;
    let f = (r * 100) / 36525;
    if r <= 365 {
        assert(f == 0);
    } else if r <= 730 {
        assert(f == 1);
    } else if r <= 1095 {
        assert(f == 2);
    } else {
        assert(f == 3);
    }
    assert((4 * q + f) % 4 == f) by (nonlinear_arith)
        requires 0 <= f < 4, q >= 0;
}

/// Every timestamp converts to a valid calendar date and time of day: the
/// month is between 1 and 12, the day between 1 and the number of days of
/// that month in that year, the date is the day of the year counted through
/// the lengths of the months, and the time of day is below 24:00:00.
pub proof fn lemma_datetime_in_range(ts: u32)
    ensures
        1 <= datetime_of(ts as int).date.day <= 31,
        ({
            let d = datetime_of(ts as int).date;
            let days = ts / 86400;
            let leap = d.year % 4 == 0;
            &&& d.day <= days_in_month(d.month as int, leap)
            &&& day_of_year(days as int) == days_before(d.month as int, leap) + d.day - 1
        }),
        1 <= datetime_of(ts as int).date.month <= 12,
        datetime_of(ts as int).date.year <= 136,
        datetime_of(ts as int).time.hours < 24,
        datetime_of(ts as int).time.minutes < 60,
        datetime_of(ts as int).time.seconds < 60,
{
    let days = ts / 86400;
    let raw_time = ts % 86400;
    let year = (days * 100) / 36525;
    let leap = year % 4 == 0;
    let yd = day_of_year(days as int);
    lemma_leap_year_position(days as int);
    assert(days <= 49710);
    assert(year <= 136);
    assert(leap ==> yd <= 365);
    assert(!leap ==> yd <= 364);
    let month = month_of(yd, leap);
    let day = yd + 1 - month_start_in(month - 1, leap);
    assert(1 <= day <= 31);
    assert(raw_time / 3600 < 24);
    lemma_month_starts(leap);
    assert(month_start_in(month - 1, leap) == days_before(month, leap));
    if month < 12 {
        assert(month_start_in(month, leap) == days_before(month + 1, leap));
        assert(days_before(month + 1, leap) == days_before(month, leap) + days_in_month(month, leap));
    } else {
        assert(days_before(13, leap) == days_before(12, leap) + days_in_month(12, leap));
    }
    assert(datetime_of(ts as int).date.year as int == year);
    assert(datetime_of(ts as int).date.month as int == month);
    assert(datetime_of(ts as int).date.day as int == day);
}

/// Converting a timestamp to a date and back gives the same timestamp when
/// the date falls after February of a leap year. (On other dates the
/// conversion back counts one day more: Timestamp(0) gives back 86400.)
pub proof fn lemma_datetime_round_trip(ts: u32)
    requires
        datetime_of(ts as int).date.year % 4 == 0,
        datetime_of(ts as int).date.month > 2,
    ensures
        timestamp_of(datetime_of(ts as int)) == ts,
{
    lemma_datetime_in_range(ts);
    let days = ts / 86400;
    let raw_time = ts % 86400;
    let year = (days * 100) / 36525;
    lemma_leap_year_position(days as int);
    let q = days / 1461;
    let r = days % 1461;
    assert(days == 1461 * q + r) by (nonlinear_arith)
        requires q == days / 1461, r == days % 1461, days >= 0;
    assert(year == 4 * q + (r * 100) / 36525);
    assert(r <= 365);
    assert((r * 100) / 36525 == 0);
    assert(year / 4 == q);
    let dt = datetime_of(ts as int);
    assert(dt.date.year as int == year);
    assert(raw_time == (raw_time / 3600) * 3600 + ((raw_time / 60) % 60) * 60 + raw_time % 60) by (nonlinear_arith)
        requires 0 <= raw_time;
    assert(ts == days * 86400 + raw_time) by (nonlinear_arith)
        requires days == ts / 86400, raw_time == ts % 86400, ts >= 0;
}

/// The number of days from 1 January 1980 to 1 January of year `year`
/// (counted from 1980): every fourth year, 1980 first, has 366 days.
pub open spec fn days_before_year(year: int) -> int {
    365 * year + (year + 3) / 4
}

/// A timestamp's date counts its days since 1 January 1980: the day falls
/// within the date's year, at the date's day of that year, and the time of
/// day accounts for the seconds left over after the whole days.
pub proof fn lemma_datetime_counts_days(ts: u32)
    ensures
        ({
            let dt = datetime_of(ts as int);
            let days = (ts / 86400) as int;
            let y = dt.date.year as int;
            let leap = y % 4 == 0;
            &&& days_before_year(y) <= days < days_before_year(y) + if leap { 366int } else { 365int }
            &&& days == days_before_year(y) + days_before(dt.date.month as int, leap) + dt.date.day - 1
            &&& dt.time.hours * 3600 + dt.time.minutes * 60 + dt.time.seconds == ts % 86400
        }),
{
    lemma_datetime_in_range(ts);
    let days = (ts / 86400) as int;
    let raw_time = (ts % 86400) as int;
    let year = (days * 100) / 36525;
    lemma_leap_year_position(days);
    let q = days / 1461;
    let r = days % 1461;
    assert(days == 1461 * q + r && 0 <= r < 1461 && q >= 0) by (nonlinear_arith)
        requires days >= 0, q == days / 1461, r == days % 1461;
    let f = (r * 100) / 36525;
    assert(year == 4 * q + f);
    assert(datetime_of(ts as int).date.year as int == year);
    if r <= 365 {
        assert(f == 0);
        assert(days_before_year(year) == 1461 * q) by (nonlinear_arith)
            requires year == 4 * q;
    } else if r <= 730 {
        assert(f == 1);
        assert(days_before_year(year) == 1461 * q + 366) by (nonlinear_arith)
            requires year == 4 * q + 1;
    } else if r <= 1095 {
        assert(f == 2);
        assert(days_before_year(year) == 1461 * q + 731) by (nonlinear_arith)
            requires year == 4 * q + 2;
    } else {
        assert(f == 3);
        assert(days_before_year(year) == 1461 * q + 1096) by (nonlinear_arith)
            requires year == 4 * q + 3;
    }
    assert(raw_time == (raw_time / 3600) * 3600 + ((raw_time / 60) % 60) * 60 + raw_time % 60) by (nonlinear_arith)
        requires 0 <= raw_time;
    assert(raw_time < 86400);
}

impl Timestamp {
    pub fn to_days_with_remainder(&self) -> (r: (u32, u32))
        ensures
            r.0 == self.0 / 86400,
            r.1 == self.0 % 86400,
    {
        let days = self.0 / SECONDS_IN_DAY;
        let remainder = self.0 % SECONDS_IN_DAY;
        (days, remainder)
    }

    /// The calendar date and time of day of this timestamp.
    pub fn to_datetime(&self) -> (r: DateTime)
        ensures
            r == datetime_of(self.0 as int),
    {
        let (days, raw_time) = self.to_days_with_remainder();
        assert(days <= 49711);
        let year_offset = year_offset_from_days(days);
        let quadrennial_days = days % (365 + 365 + 365 + 366);
        let year_days = if quadrennial_days > 365 { (quadrennial_days - 366) % 365 } else { quadrennial_days };
        let ghost leap = year_offset % 4 == 0;
        assert(year_days == day_of_year(days as int));
        assert(year_days <= 365);
        let mut month: usize = 0;
        let mut leap_day: u32 = 0;
        while month < 12 && month_start_offset(month) + leap_day <= year_days
            invariant
                month <= 12,
                year_days <= 365,
                leap == (year_offset % 4 == 0),
                leap_day == (if leap && month >= 2 { 1u32 } else { 0u32 }),
                forall|i: int| 0 <= i < month ==> month_start_in(i, leap) <= year_days,
            decreases 12 - month,
        {
            month += 1;
            if month == 2 && year_offset % 4 == 0 {
                // 2000 is a leap year, no need to check against 2100
                leap_day = 1;
            }
        }
        assert(month >= 1) by {
            if month == 0 {
                assert(month_start_in(0, leap) <= year_days);
            }
        }
        assert(month == month_of(year_days as int, leap)) by {
            assert(month_start_in(month - 1, leap) <= year_days);
            assert(month == 12 || year_days < month_start_in(month as int, leap));
        }
        let mut day = year_days + 1 - month_start_offset(month - 1);
        if month > 2 {
            day -= leap_day;
        }
        let total_minutes = raw_time / 60;
        let seconds = raw_time % 60;
        let hours = total_minutes / 60;
        let minutes = total_minutes % 60;
        assert(hours == raw_time / 3600) by {
            assert(raw_time / 60 / 60 == raw_time / 3600) by (nonlinear_arith)
                requires 0 <= raw_time;
        }
        DateTime {
            date: Date { day: day as u8, month: month as u8, year: year_offset as u8 },
            time: Time { hours: hours as u8, minutes: minutes as u8, seconds: seconds as u8 },
        }
    }

    /// The timestamp of a date and time: whole four-year cycles, then whole
    /// years, then the start of the month and the day of the month.
    pub fn from_datetime(dt: DateTime) -> (r: Timestamp)
        requires
            1 <= dt.date.month <= 12,
            timestamp_of(dt) <= u32::MAX,
        ensures
            r.0 == timestamp_of(dt),
    {
        let quadrennials = dt.date.year as u32 / 4;
        let year_remainder = dt.date.year as u32 % 4;
        let mut days = quadrennials * (366 + 365 + 365 + 365) + year_remainder * 365;
        if year_remainder > 0 {
            days += 1;
        }
        days += month_start_offset(dt.date.month as usize - 1);
        days += dt.date.day as u32;
        assert(days * 86400 <= timestamp_of(dt));
        let timestamp = days * SECONDS_IN_DAY
            + dt.time.hours as u32 * 60 * 60
            + dt.time.minutes as u32 * 60
            + dt.time.seconds as u32;
        Timestamp(timestamp)
    }
}

} // verus!
