//! DOS dates and times: the packed 16-bit encodings directory entries use,
//! the Unix-timestamp conversion, and the clock providers.

use vstd::prelude::*;
use chrono::{Datelike, Timelike};

verus! {

/// A DOS-representable date: 1980 to 2107.
#[derive(Clone, Copy, Debug, PartialEq, Eq, Structural)]
pub struct Date {
    /// Full year, 1980 to 2107.
    pub year: u16,
    /// Month, 1 to 12.
    pub month: u16,
    /// Day of the month, 1 to 31.
    pub day: u16,
}

/// A DOS-representable time of day.
#[derive(Clone, Copy, Debug, PartialEq, Eq, Structural)]
pub struct Time {
    /// Hours after midnight, 0 to 23.
    pub hour: u16,
    /// Minutes, 0 to 59.
    pub min: u16,
    /// Seconds, 0 to 59.
    pub sec: u16,
    /// Milliseconds, 0 to 999.
    pub millis: u16,
}

/// A date and a time of day.
#[derive(Clone, Copy, Debug, PartialEq, Eq, Structural)]
pub struct DateTime {
    /// The date part.
    pub date: Date,
    /// The time part.
    pub time: Time,
}

impl Date {
    /// The fields are in DOS range.
    pub open spec fn wf(&self) -> bool {
        &&& 1980 <= self.year <= 2107
        &&& 1 <= self.month <= 12
        &&& 1 <= self.day <= 31
    }

    /// Build a date; the fields must sit in the DOS ranges.
    pub fn new(year: u16, month: u16, day: u16) -> (r: Self)
        requires
            1980 <= year <= 2107,
            1 <= month <= 12,
            1 <= day <= 31,
        ensures
            r == (Date { year, month, day }),
            r.wf(),
    {
        Date { year, month, day }
    }

    /// Unpack a DOS date word: bits 15..9 the year from 1980, 8..5 the
    /// month, 4..0 the day.
    pub fn decode(dos_date: u16) -> (r: Self)
        ensures
            r.year == dos_date as int / 512 + 1980,
            r.month == (dos_date as int / 32) % 16,
            r.day == dos_date as int % 32,
    {
        Date {
            year: dos_date / 512 + 1980,
            month: (dos_date / 32) % 16,
            day: dos_date % 32,
        }
    }

    /// Pack into the DOS date word.
    pub fn encode(self) -> (r: u16)
        requires
            self.wf(),
        ensures
            r == (self.year - 1980) * 512 + self.month * 32 + self.day,
    {
        (self.year - 1980) * 512 + self.month * 32 + self.day
    }
}

/// A valid date survives the encode/decode round trip.
pub proof fn lemma_date_roundtrip(d: Date)
    requires
        d.wf(),
    ensures
        ({
            let w = (d.year - 1980) * 512 + d.month * 32 + d.day;
            &&& w / 512 + 1980 == d.year
            &&& (w / 32) % 16 == d.month
            &&& w % 32 == d.day
        }),
{
    let w = (d.year - 1980) * 512 + d.month * 32 + d.day;
    assert(w / 512 + 1980 == d.year && (w / 32) % 16 == d.month && w % 32 == d.day)
        by (nonlinear_arith)
        requires
            w == (d.year - 1980) * 512 + d.month * 32 + d.day,
            0 <= d.year - 1980 <= 127,
            1 <= d.month <= 12,
            1 <= d.day <= 31;
}

impl Time {
    /// The fields are in range, milliseconds on a ten-millisecond grid as
    /// far as the encoding can keep them.
    pub open spec fn wf(&self) -> bool {
        &&& self.hour <= 23
        &&& self.min <= 59
        &&& self.sec <= 59
        &&& self.millis <= 999
    }

    /// Build a time of day; the fields must be in range.
    pub fn new(hour: u16, min: u16, sec: u16, millis: u16) -> (r: Self)
        requires
            hour <= 23,
            min <= 59,
            sec <= 59,
            millis <= 999,
        ensures
            r == (Time { hour, min, sec, millis }),
            r.wf(),
    {
        Time { hour, min, sec, millis }
    }

    /// Unpack the DOS time word and the hundredths byte: bits 15..11 the
    /// hour, 10..5 the minute, 4..0 the seconds halved; the extra byte
    /// carries hundredths of a second up to 199.
    pub fn decode(dos_time: u16, dos_time_hi_res: u8) -> (r: Self)
        ensures
            r.hour == dos_time as int / 2048,
            r.min == (dos_time as int / 32) % 64,
            r.sec == (dos_time as int % 32) * 2 + dos_time_hi_res as int / 100,
            r.millis == (dos_time_hi_res as int % 100) * 10,
    {
        Time {
            hour: dos_time / 2048,
            min: (dos_time / 32) % 64,
            sec: (dos_time % 32) * 2 + (dos_time_hi_res / 100) as u16,
            millis: (dos_time_hi_res % 100) as u16 * 10,
        }
    }

    /// Pack into the DOS time word plus the hundredths byte.
    pub fn encode(self) -> (r: (u16, u8))
        requires
            self.wf(),
        ensures
            r.0 == self.hour * 2048 + self.min * 32 + self.sec as int / 2,
            r.1 == self.millis as int / 10 + (self.sec as int % 2) * 100,
    {
        let dos_time = self.hour * 2048 + self.min * 32 + self.sec / 2;
        let hi = self.millis / 10 + (self.sec % 2) * 100;
        (dos_time, hi as u8)
    }
}

/// Is `year` a leap year?
pub open spec fn spec_is_leap_year(year: int) -> bool {
    (year % 4 == 0 && year % 100 != 0) || year % 400 == 0
}

/// Days in `year`.
pub open spec fn spec_days_in_year(year: int) -> int {
    if spec_is_leap_year(year) { 366 } else { 365 }
}

/// Days in month `m` of a year with leap flag `leap`.
pub open spec fn spec_days_in_month(m: int, leap: bool) -> int {
    if m == 1 { 31 } else if m == 2 { if leap { 29 } else { 28 } }
    else if m == 3 { 31 } else if m == 4 { 30 } else if m == 5 { 31 }
    else if m == 6 { 30 } else if m == 7 { 31 } else if m == 8 { 31 }
    else if m == 9 { 30 } else if m == 10 { 31 } else if m == 11 { 30 }
    else { 31 }
}

/// Days from 1980-01-01 to the start of `year`.
pub open spec fn spec_days_to_year(year: int) -> int
    decreases year,
{
    if year <= 1980 { 0 } else { spec_days_to_year(year - 1) + spec_days_in_year(year - 1) }
}

/// Days from the start of the year to the start of month `m`.
pub open spec fn spec_days_to_month(m: int, leap: bool) -> int
    decreases m,
{
    if m <= 1 { 0 } else { spec_days_to_month(m - 1, leap) + spec_days_in_month(m - 1, leap) }
}

/// Seconds from 1970-01-01 to `dt`, taking `dt` as UTC.
pub open spec fn spec_unix_timestamp(dt: DateTime) -> int {
    let days = 3652 + spec_days_to_year(dt.date.year as int)
        + spec_days_to_month(dt.date.month as int, spec_is_leap_year(dt.date.year as int))
        + dt.date.day - 1;
    days * 86400 + dt.time.hour * 3600 + dt.time.min * 60 + dt.time.sec
}

impl DateTime {
    /// Both parts are in range.
    pub open spec fn wf(&self) -> bool {
        self.date.wf() && self.time.wf()
    }

    /// Pair a date with a time.
    pub fn new(date: Date, time: Time) -> (r: Self)
        ensures
            r == (DateTime { date, time }),
    {
        DateTime { date, time }
    }

    /// Unpack a date word, time word and hundredths byte together.
    pub fn decode(dos_date: u16, dos_time: u16, dos_time_hi_res: u8) -> (r: Self)
        ensures
            r.date.year == dos_date as int / 512 + 1980,
            r.date.month == (dos_date as int / 32) % 16,
            r.date.day == dos_date as int % 32,
            r.time.hour == dos_time as int / 2048,
    {
        DateTime {
            date: Date::decode(dos_date),
            time: Time::decode(dos_time, dos_time_hi_res),
        }
    }

    /// Is `year` a leap year?
    pub fn is_leap_year(year: u16) -> (r: bool)
        ensures
            r == spec_is_leap_year(year as int),
    {
        (year % 4 == 0 && year % 100 != 0) || year % 400 == 0
    }

    /// Seconds since 1970-01-01 00:00:00, taking this stamp as UTC. DOS
    /// dates begin in 1980, so the result is at least 315532800.
    pub fn to_unix_timestamp(self) -> (r: u64)
        requires
            self.wf(),
        ensures
            r == spec_unix_timestamp(self),
    {
        let leap = Self::is_leap_year(self.date.year);
        let mut days: u64 = 3652;
        let mut y: u16 = 1980;
        while y < self.date.year
            invariant
                1980 <= y <= self.date.year,
                self.date.year <= 2107,
                days == 3652 + spec_days_to_year(y as int),
                days <= 3652 + 366 * (y - 1980),
            decreases self.date.year - y,
        {
            if Self::is_leap_year(y) {
                days = days + 366;
            } else {
                days = days + 365;
            }
            y = y + 1;
        }
        let mut m: u16 = 1;
        while m < self.date.month
            invariant
                1 <= m <= self.date.month,
                self.date.month <= 12,
                leap == spec_is_leap_year(self.date.year as int),
                days <= 3652 + 366 * 128 + 31 * (m - 1),
                days - (3652 + spec_days_to_year(self.date.year as int))
                    == spec_days_to_month(m as int, spec_is_leap_year(self.date.year as int)),
            decreases self.date.month - m,
        {
            let dim: u16 = if m == 1 { 31 } else if m == 2 { if leap { 29 } else { 28 } }
                else if m == 3 { 31 } else if m == 4 { 30 } else if m == 5 { 31 }
                else if m == 6 { 30 } else if m == 7 { 31 } else if m == 8 { 31 }
                else if m == 9 { 30 } else if m == 10 { 31 } else if m == 11 { 30 }
                else { 31 };
            days = days + dim as u64;
            m = m + 1;
        }
        days = days + self.date.day as u64 - 1;
        days * 86400 + self.time.hour as u64 * 3600 + self.time.min as u64 * 60
            + self.time.sec as u64
    }
}

/// A source of the current date and time, for directory-entry stamps.
pub trait TimeProvider {
    /// The current date, within the DOS range.
    fn get_current_date(&self) -> (r: Date)
        ensures
            r.wf(),
    ;

    /// The current date and time, within the DOS ranges.
    fn get_current_date_time(&self) -> (r: DateTime)
        ensures
            r.wf(),
    ;
}

/// The null provider: always the DOS epoch, 1980-01-01 00:00:00. Valid for
/// embedded use with no clock.
#[derive(Debug, Clone, Copy)]
pub struct NullTimeProvider {
}

impl NullTimeProvider {
    /// The provider.
    pub fn new() -> (r: Self)
    {
        NullTimeProvider { }
    }
}

impl TimeProvider for NullTimeProvider {
    fn get_current_date(&self) -> (r: Date)
    {
        Date { year: 1980, month: 1, day: 1 }
    }

    fn get_current_date_time(&self) -> (r: DateTime)
    {
        DateTime {
            date: Date { year: 1980, month: 1, day: 1 },
            time: Time { hour: 0, min: 0, sec: 0, millis: 0 },
        }
    }
}

/// Relies on chrono::DateTime::from_timestamp (which returns `None`
/// outside the representable range instead of panicking) and chrono's
/// Datelike/Timelike accessors: the UTC calendar form of the given epoch
/// second, with month 1 to 12, day 1 to 31, hour below 24, minute and
/// second below 60.
#[verifier::external_body]
fn chrono_epoch_parts(secs: i64) -> (r: Option<(i64, u32, u32, u32, u32, u32)>)
    ensures
        r matches Some(p) ==> {
            &&& 1 <= p.1 <= 12
            &&& 1 <= p.2 <= 31
            &&& p.3 <= 23
            &&& p.4 <= 59
            &&& p.5 <= 59
        },
{
    match chrono::DateTime::from_timestamp(secs, 0) {
        Some(t) => Some((t.year() as i64, t.month(), t.day(), t.hour(), t.minute(),
            t.second())),
        None => None,
    }
}

/// Relies on std::time::SystemTime::now: whole seconds since the Unix
/// epoch, or zero when the clock predates it.
#[verifier::external_body]
fn system_unix_seconds() -> (r: u64)
{
    match std::time::SystemTime::now().duration_since(std::time::UNIX_EPOCH) {
        Ok(d) => d.as_secs(),
        Err(_) => 0,
    }
}

/// Clamp a calendar stamp into the DOS ranges.
fn clamp_date_time(year: i64, month: u32, day: u32, hour: u32, min: u32,
    sec: u32) -> (r: DateTime)
    requires
        1 <= month <= 12,
        1 <= day <= 31,
        hour <= 23,
        min <= 59,
        sec <= 59,
    ensures
        r.wf(),
{
    let y: u16 = if year < 1980 { 1980 } else if year > 2107 { 2107 } else { year as u16 };
    DateTime {
        date: Date { year: y, month: month as u16, day: day as u16 },
        time: Time { hour: hour as u16, min: min as u16, sec: sec as u16, millis: 0 },
    }
}

/// The chrono-backed provider: the system clock's epoch seconds, turned
/// into a UTC calendar stamp by chrono's non-panicking conversion. Stamps
/// outside the DOS range saturate to its ends; a clock chrono cannot
/// represent falls back to the DOS epoch.
#[derive(Debug, Clone, Copy)]
pub struct ChronoTimeProvider {
}

impl ChronoTimeProvider {
    /// The provider.
    pub fn new() -> (r: Self)
    {
        ChronoTimeProvider { }
    }
}

/// The current moment per chrono, clamped into the DOS ranges.
fn chrono_now_clamped() -> (r: DateTime)
    ensures
        r.wf(),
{
    let secs = system_unix_seconds();
    let secs_i: i64 = if secs > 0x7FFFFFFFFFFFFFFFu64 { 0 } else { secs as i64 };
    match chrono_epoch_parts(secs_i) {
        Some((y, mo, d, h, mi, se)) => clamp_date_time(y, mo, d, h, mi, se),
        None => DateTime {
            date: Date { year: 1980, month: 1, day: 1 },
            time: Time { hour: 0, min: 0, sec: 0, millis: 0 },
        },
    }
}

impl TimeProvider for ChronoTimeProvider {
    fn get_current_date(&self) -> (r: Date)
    {
        chrono_now_clamped().date
    }

    fn get_current_date_time(&self) -> (r: DateTime)
    {
        chrono_now_clamped()
    }
}

/// A provider over the system clock alone: the epoch seconds are turned
/// into a UTC calendar stamp by walking years and months, clamped to the
/// DOS range.
#[derive(Debug, Clone, Copy)]
pub struct TimeTimeProvider {
}

impl TimeTimeProvider {
    /// The provider.
    pub fn new() -> (r: Self)
    {
        TimeTimeProvider { }
    }
}

/// Turn epoch seconds into a DOS-range UTC stamp.
fn unix_to_date_time(secs: u64) -> (r: DateTime)
    ensures
        r.wf(),
{
    // Clamp below the DOS epoch and far above its end.
    if secs < 315532800 {
        return DateTime {
            date: Date { year: 1980, month: 1, day: 1 },
            time: Time { hour: 0, min: 0, sec: 0, millis: 0 },
        };
    }
    let mut days: u64 = (secs - 315532800) / 86400;
    let rem: u64 = (secs - 315532800) % 86400;
    let mut year: u16 = 1980;
    while year < 2107
        invariant
            1980 <= year <= 2107,
        decreases 2107 - year,
    {
        let diy: u64 = if DateTime::is_leap_year(year) { 366 } else { 365 };
        if days < diy {
            break;
        }
        days = days - diy;
        year = year + 1;
    }
    let leap = DateTime::is_leap_year(year);
    let mut month: u16 = 1;
    while month < 12
        invariant
            1 <= month <= 12,
        decreases 12 - month,
    {
        let dim: u64 = if month == 1 { 31 } else if month == 2 { if leap { 29 } else { 28 } }
            else if month == 3 { 31 } else if month == 4 { 30 } else if month == 5 { 31 }
            else if month == 6 { 30 } else if month == 7 { 31 } else if month == 8 { 31 }
            else if month == 9 { 30 } else if month == 10 { 31 } else { 30 };
        if days < dim {
            break;
        }
        days = days - dim;
        month = month + 1;
    }
    let day: u16 = if days > 30 { 31 } else { (days + 1) as u16 };
    let hour: u16 = (rem / 3600) as u16;
    let minute: u16 = ((rem / 60) % 60) as u16;
    let second: u16 = (rem % 60) as u16;
    proof {
        assert(rem / 3600 <= 23 && (rem / 60) % 60 <= 59 && rem % 60 <= 59)
            by (nonlinear_arith)
            requires rem < 86400u64;
    }
    DateTime {
        date: Date { year, month, day },
        time: Time { hour, min: minute, sec: second, millis: 0 },
    }
}

impl TimeProvider for TimeTimeProvider {
    fn get_current_date(&self) -> (r: Date)
    {
        unix_to_date_time(system_unix_seconds()).date
    }

    fn get_current_date_time(&self) -> (r: DateTime)
    {
        unix_to_date_time(system_unix_seconds())
    }
}

} // verus!
