//! Clocks, and Unix timestamps as calendar dates.
use crate::number;
use crate::text;
use vstd::prelude::*;

verus! {

/// Clock abstraction allowing deterministic time injection in tests.
pub trait Clock {
    /// Returns the current Unix timestamp in seconds.
    fn now_unix(&self) -> i64;
}

/// Standard system wall-clock time provider.
#[derive(Debug, Clone)]
pub struct SystemClock;

impl Default for SystemClock {
    fn default() -> (c: Self)
        ensures
            c == SystemClock,
    {
        SystemClock
    }
}

/// `std::time::SystemTime`, a reading of the wall clock.
#[verifier::external_type_specification]
#[verifier::external_body]
pub struct ExSystemTime(std::time::SystemTime);

/// The whole seconds from the Unix epoch to a reading, by
/// `SystemTime::duration_since`; `None` where it lies before the epoch.
pub uninterp spec fn secs_since_epoch(reading: std::time::SystemTime) -> Option<u64>;

/// Reads the wall clock by `SystemTime::now`. What it shows is not claimed.
#[verifier::external_body]
fn wall_clock() -> (r: std::time::SystemTime) {
    std::time::SystemTime::now()
}

/// Calls `SystemTime::duration_since` for the Unix epoch, and hands out the whole
/// seconds.
#[verifier::external_body]
fn seconds_since_epoch(reading: std::time::SystemTime) -> (r: Option<u64>)
    ensures
        r == secs_since_epoch(reading),
{
    reading.duration_since(std::time::UNIX_EPOCH).ok().map(|d| d.as_secs())
}

/// The Unix timestamp of so many seconds; a clock before the epoch reads zero.
pub open spec fn timestamp_of(since_epoch: Option<u64>) -> i64 {
    match since_epoch {
        Some(s) => s as i64,
        None => 0,
    }
}

/// The Unix timestamp of a clock reading; a clock before the epoch reads zero.
pub fn unix_timestamp(since_epoch: Option<u64>) -> (r: i64)
    ensures
        r == timestamp_of(since_epoch),
{
    match since_epoch {
        Some(s) => s as i64,
        None => 0,
    }
}

impl Clock for SystemClock {
    fn now_unix(&self) -> (r: i64)
        ensures
            exists|reading: std::time::SystemTime|
                r == timestamp_of(#[trigger] secs_since_epoch(reading)),
    {
        unix_timestamp(seconds_since_epoch(wall_clock()))
    }
}

/// Injected mock clock for tests and deterministic simulation.
#[derive(Debug, Clone)]
pub struct MockClock {
    now: i64,
}

impl MockClock {
    /// The timestamp the clock shows.
    pub closed spec fn shows(&self) -> i64 {
        self.now
    }

    /// Creates a mock clock initialized to the specified timestamp.
    pub fn new(initial: i64) -> (c: Self)
        ensures
            c.shows() == initial,
    {
        MockClock { now: initial }
    }

    /// Sets the current timestamp to an exact value.
    pub fn set(&mut self, ts: i64)
        ensures
            final(self).shows() == ts,
    {
        self.now = ts;
    }

    /// Advances the clock forward by the given duration in seconds, wrapping
    /// around at the ends of the range.
    pub fn advance(&mut self, secs: i64)
        ensures
            i64::MIN <= old(self).shows() + secs <= i64::MAX ==> final(self).shows()
                == old(self).shows() + secs,
            old(self).shows() + secs > i64::MAX ==> final(self).shows() == old(self).shows() + secs
                - 0x1_0000_0000_0000_0000,
            old(self).shows() + secs < i64::MIN ==> final(self).shows() == old(self).shows() + secs
                + 0x1_0000_0000_0000_0000,
    {
        self.now = self.now.wrapping_add(secs);
    }
}

impl Clock for MockClock {
    fn now_unix(&self) -> (r: i64)
        ensures
            r == self.shows(),
    {
        self.now
    }
}

/// A Gregorian leap year.
pub open spec fn is_leap(y: int) -> bool {
    y % 4 == 0 && (y % 100 != 0 || y % 400 == 0)
}

/// The days of a month.
pub open spec fn days_in_month(y: int, m: int) -> int {
    if m == 2 {
        if is_leap(y) {
            29
        } else {
            28
        }
    } else if m == 4 || m == 6 || m == 9 || m == 11 {
        30
    } else {
        31
    }
}

/// A date of the Gregorian calendar.
pub open spec fn is_date(y: int, m: int, d: int) -> bool {
    1 <= m <= 12 && 1 <= d <= days_in_month(y, m)
}

/// A quotient rounded towards zero.
pub open spec fn trunc_div(a: int, b: int) -> int {
    if a >= 0 {
        a / b
    } else {
        -((-a) / b)
    }
}

/// Days from 1970-01-01 to a date, counting in years that begin in March.
pub open spec fn days_of(year: int, month: int, day: int) -> int {
    let y = if month <= 2 {
        year - 1
    } else {
        year
    };
    let mp = if month > 2 {
        month - 3
    } else {
        month + 9
    };
    let era = y / 400;
    let yoe = y - era * 400;
    let doy = trunc_div(153 * mp + 2, 5) + day - 1;
    era * 146097 + (yoe * 365 + yoe / 4 - yoe / 100 + doy) - 719468
}

/// The year, month and day that lie a number of days after 1970-01-01.
pub open spec fn date_of(days: int) -> (int, int, int) {
    let z = days + 719468;
    let era = z / 146097;
    let doe = z - era * 146097;
    let yoe = (doe - doe / 1460 + doe / 36524 - doe / 146096) / 365;
    let doy = doe - (365 * yoe + yoe / 4 - yoe / 100);
    let mp = (5 * doy + 2) / 153;
    let d = doy - (153 * mp + 2) / 5 + 1;
    let m = if mp < 10 {
        mp + 3
    } else {
        mp - 9
    };
    let y = yoe + era * 400 + if m <= 2 {
        1int
    } else {
        0
    };
    (y, m, d)
}

/// Bounds on the parts of a day count within a cycle of 400 years.
proof fn cycle_bounds(doe: int)
    requires
        0 <= doe < 146097,
    ensures
        ({
            let yoe = (doe - doe / 1460 + doe / 36524 - doe / 146096) / 365;
            let doy = doe - (365 * yoe + yoe / 4 - yoe / 100);
            &&& 0 <= yoe <= 399
            &&& 0 <= doy <= 365
            &&& doy == 365 ==> yoe % 4 == 3 && (yoe % 100 != 99 || yoe == 399)
        }),
{
}

/// The date of a day count is a date of the calendar, and counting its days
/// gives the day count back.
pub proof fn date_names_the_day(days: int)
    ensures
        ({
            let (y, m, d) = date_of(days);
            is_date(y, m, d) && days_of(y, m, d) == days
        }),
{
    let z = days + 719468;
    let era = z / 146097;
    let doe = z - era * 146097;
    cycle_bounds(doe);
    let yoe = (doe - doe / 1460 + doe / 36524 - doe / 146096) / 365;
    let doy = doe - (365 * yoe + yoe / 4 - yoe / 100);
    let mp = (5 * doy + 2) / 153;
    assert(0 <= mp <= 11);
    let d = doy - (153 * mp + 2) / 5 + 1;
    let m = if mp < 10 {
        mp + 3
    } else {
        mp - 9
    };
    let y0 = yoe + era * 400;
    assert(y0 / 400 == era);
    assert(y0 - era * 400 == yoe);
}

/// The year within a cycle of 400 years is found again from the day within it.
proof fn year_of_cycle(yoe: int, doy: int)
    requires
        0 <= yoe < 400,
        0 <= doy <= 365,
        doy == 365 ==> yoe % 4 == 3 && (yoe % 100 != 99 || yoe == 399),
    ensures
        ({
            let doe = yoe * 365 + yoe / 4 - yoe / 100 + doy;
            &&& 0 <= doe < 146097
            &&& (doe - doe / 1460 + doe / 36524 - doe / 146096) / 365 == yoe
        }),
{
    let century = yoe / 100;
    let group = yoe % 100 / 4;
    let year = yoe % 4;
    assert(yoe == 100 * century + 4 * group + year);
    let doe = yoe * 365 + yoe / 4 - yoe / 100 + doy;
    assert(doe == 36524 * century + 1461 * group + 365 * year + doy);
}

/// The month and the day are found again from the day within the year.
proof fn month_of_year(mp: int, d: int)
    requires
        0 <= mp <= 11,
        1 <= d <= 31,
        (mp == 1 || mp == 3 || mp == 6 || mp == 8) ==> d <= 30,
        mp == 11 ==> d <= 29,
    ensures
        ({
            let doy = (153 * mp + 2) / 5 + d - 1;
            &&& 0 <= doy <= 365
            &&& doy == 365 ==> mp == 11 && d == 29
            &&& (5 * doy + 2) / 153 == mp
        }),
{
}

/// Every date of the calendar is the date of its own day count.
pub proof fn day_names_the_date(y: int, m: int, d: int)
    requires
        is_date(y, m, d),
    ensures
        date_of(days_of(y, m, d)) == (y, m, d),
{
    let y0 = if m <= 2 {
        y - 1
    } else {
        y
    };
    let mp = if m > 2 {
        m - 3
    } else {
        m + 9
    };
    let era = y0 / 400;
    let yoe = y0 - era * 400;
    let doy = (153 * mp + 2) / 5 + d - 1;
    month_of_year(mp, d);
    assert(m == 2 && d == 29 ==> yoe % 4 == 3 && (yoe % 100 != 99 || yoe == 399));
    year_of_cycle(yoe, doy);
    let doe = yoe * 365 + yoe / 4 - yoe / 100 + doy;
    assert(days_of(y, m, d) + 719468 == era * 146097 + doe);
    assert((era * 146097 + doe) / 146097 == era);
}

/// The first day of the count is 1970-01-01.
pub proof fn epoch_is_day_zero()
    ensures
        days_of(1970, 1, 1) == 0,
        date_of(0) == (1970int, 1int, 1int),
{
}

/// A year of the cycle is a day longer exactly where it ends in a leap day.
proof fn year_length(yoe: int)
    requires
        0 <= yoe < 399,
    ensures
        (yoe + 1) / 4 - (yoe + 1) / 100 - (yoe / 4 - yoe / 100) == (if is_leap(yoe + 1) {
            1int
        } else {
            0
        }),
{
    let a = yoe / 4;
    let b = yoe / 100;
    assert((yoe + 1) / 4 == if yoe % 4 == 3 {
        a + 1
    } else {
        a
    });
    assert((yoe + 1) / 100 == if yoe % 100 == 99 {
        b + 1
    } else {
        b
    });
}

/// Whether a year is a leap year depends on its place in the cycle alone.
proof fn leap_by_cycle(era: int, yoe: int)
    ensures
        is_leap(400 * era + yoe) == is_leap(yoe),
{
    assert((400 * era + yoe) % 4 == yoe % 4);
    assert((400 * era + yoe) % 100 == yoe % 100);
    assert((400 * era + yoe) % 400 == yoe % 400);
}

/// The first of March follows the last of February.
proof fn march_follows_february(y: int)
    ensures
        days_of(y, 3, 1) == days_of(y, 2, days_in_month(y, 2)) + 1,
{
    let before = y - 1;
    let yoe = before % 400;
    let era = before / 400;
    assert(before - era * 400 == yoe);
    leap_by_cycle(era, yoe + 1);
    assert(y == 400 * era + (yoe + 1));
    let february = days_of(y, 2, days_in_month(y, 2));
    assert(february == era * 146097 + yoe * 365 + yoe / 4 - yoe / 100 + 337 + days_in_month(y, 2)
        - 1 - 719468);
    if yoe == 399 {
        assert(y / 400 == era + 1);
        assert(y - (era + 1) * 400 == 0);
        assert(days_of(y, 3, 1) == (era + 1) * 146097 - 719468);
    } else {
        year_length(yoe);
        assert(y / 400 == era);
        assert(y - era * 400 == yoe + 1);
        assert(days_of(y, 3, 1) == era * 146097 + (yoe + 1) * 365 + (yoe + 1) / 4 - (yoe + 1) / 100
            - 719468);
    }
}

/// The days of a month follow one another, and the first of a month follows
/// the last of the month before.
pub proof fn days_are_consecutive(y: int, m: int, d: int)
    requires
        is_date(y, m, d),
    ensures
        d < days_in_month(y, m) ==> days_of(y, m, d + 1) == days_of(y, m, d) + 1,
        d == days_in_month(y, m) && m < 12 ==> days_of(y, m + 1, 1) == days_of(y, m, d) + 1,
        d == days_in_month(y, m) && m == 12 ==> days_of(y + 1, 1, 1) == days_of(y, m, d) + 1,
{
    if m == 2 && d == days_in_month(y, m) {
        march_follows_february(y);
    }
}

/// A Unix timestamp in words: the date and the time of day, in UTC.
pub open spec fn timestamp_text(ts: int) -> Seq<char> {
    let (y, m, d) = date_of(ts / 86400);
    let secs = ts % 86400;
    number::padded(y, 4) + "-"@ + number::padded(m, 2) + "-"@ + number::padded(d, 2) + " "@
        + number::padded(secs / 3600, 2) + ":"@ + number::padded(secs % 3600 / 60, 2) + ":"@
        + number::padded(secs % 60, 2) + " UTC"@
}

/// Formats a Unix timestamp as a human-readable UTC date-time string ("YYYY-MM-DD HH:MM:SS UTC").
pub fn format_unix_timestamp(ts: i64) -> (r: String)
    ensures
        r@ == timestamp_text(ts as int),
{
    let days: i64 = ts.checked_div_euclid(86400).unwrap();
    let rem_secs: i64 = ts.checked_rem_euclid(86400).unwrap();
    assert(days == ts as int / 86400);
    assert(rem_secs == ts as int % 86400);
    let z: i64 = days + 719468;
    let era: i64 = z.checked_div_euclid(146097).unwrap();
    assert(era == z as int / 146097);
    let doe: i64 = z - era * 146097;
    proof {
        cycle_bounds(doe as int);
    }
    let yoe: i64 = (doe - doe / 1460 + doe / 36524 - doe / 146096) / 365;
    let doy: i64 = doe - (365 * yoe + yoe / 4 - yoe / 100);
    let mp: i64 = (5 * doy + 2) / 153;
    let d: i64 = doy - (153 * mp + 2) / 5 + 1;
    let m: i64 = if mp < 10 {
        mp + 3
    } else {
        mp - 9
    };
    let y: i64 = if m <= 2 {
        yoe + era * 400 + 1
    } else {
        yoe + era * 400
    };
    let mut out = number::padded_of(y, 4);
    out.append("-");
    let part = number::padded_of(m, 2);
    out.append(part.as_str());
    out.append("-");
    let part = number::padded_of(d, 2);
    out.append(part.as_str());
    out.append(" ");
    let part = number::padded_of(rem_secs / 3600, 2);
    out.append(part.as_str());
    out.append(":");
    let part = number::padded_of(rem_secs % 3600 / 60, 2);
    out.append(part.as_str());
    out.append(":");
    let part = number::padded_of(rem_secs % 60, 2);
    out.append(part.as_str());
    out.append(" UTC");
    out
}

} // verus!
