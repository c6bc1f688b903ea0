//! Calendar dates and UTC timestamps as plain values.
//!
//! A `Date` is a year/month/day triple; a `Timestamp` adds a time of day.
//! Both are given a numeric value (days, or seconds, since 1970-01-01 UTC)
//! by spec functions, and every comparison in the crate is stated over
//! those values.

use vstd::arithmetic::div_mod::{lemma_fundamental_div_mod, lemma_mod_multiples_vanish};
use vstd::prelude::*;

verus! {

/// A calendar date (proleptic Gregorian), year 0 through 9999 when valid.
#[derive(Clone, Copy, Debug, PartialEq, Eq, Structural)]
pub struct Date {
    pub year: u16,
    pub month: u8,
    pub day: u8,
}

/// A UTC timestamp with whole-second resolution.
#[derive(Clone, Copy, Debug, PartialEq, Eq, Structural)]
pub struct Timestamp {
    pub date: Date,
    pub hour: u8,
    pub minute: u8,
    pub second: u8,
}

pub open spec fn is_leap_year(y: int) -> bool {
    y % 4 == 0 && (y % 100 != 0 || y % 400 == 0)
}

pub open spec fn days_in_month(y: int, m: int) -> int {
    if m == 2 {
        if is_leap_year(y) {
            29
        } else {
            28
        }
    } else if m == 4 || m == 6 || m == 9 || m == 11 {
        30
    } else {
        31
    }
}

pub open spec fn date_valid(d: Date) -> bool {
    &&& d.year <= 9999
    &&& 1 <= d.month <= 12
    &&& 1 <= d.day <= days_in_month(d.year as int, d.month as int)
}

pub open spec fn ts_valid(t: Timestamp) -> bool {
    &&& date_valid(t.date)
    &&& t.hour < 24
    &&& t.minute < 60
    &&& t.second < 60
}

/// Days since 1970-01-01 of the date `(year, month, day)`; negative before
/// the epoch. The computation runs in a range shifted by 400 years so that
/// every intermediate quantity is non-negative.
pub open spec fn days_from_epoch(year: int, month: int, day: int) -> int {
    let y = if month <= 2 {
        year + 399
    } else {
        year + 400
    };
    let mp = if month > 2 {
        month - 3
    } else {
        month + 9
    };
    let era = y / 400;
    let yoe = y - era * 400;
    let doy = (153 * mp + 2) / 5 + day - 1;
    let doe = yoe * 365 + yoe / 4 - yoe / 100 + doy;
    era * 146097 + doe - 865565
}

pub open spec fn date_day_number(d: Date) -> int {
    days_from_epoch(d.year as int, d.month as int, d.day as int)
}

/// Seconds since 1970-01-01T00:00:00Z.
pub open spec fn ts_seconds(t: Timestamp) -> int {
    date_day_number(t.date) * 86400 + t.hour * 3600 + t.minute * 60 + t.second
}

/// Day of the week of a day number, counted from Monday:
/// 0 is Monday, 6 is Sunday (1970-01-01 was a Thursday, index 3).
pub open spec fn weekday_from_monday(days: int) -> int {
    (days + 3) % 7
}

fn days_in_month_exec(y: u16, m: u8) -> (d: u8)
    ensures
        d == days_in_month(y as int, m as int),
{
    if m == 2 {
        if y % 4 == 0 && (y % 100 != 0 || y % 400 == 0) {
            29
        } else {
            28
        }
    } else if m == 4 || m == 6 || m == 9 || m == 11 {
        30
    } else {
        31
    }
}

impl Date {
    /// Is this a real calendar date?
    pub fn is_valid(&self) -> (r: bool)
        ensures
            r == date_valid(*self),
    {
        self.year <= 9999 && 1 <= self.month && self.month <= 12 && 1 <= self.day && self.day
            <= days_in_month_exec(self.year, self.month)
    }

    /// The day number of this date: days since 1970-01-01, negative
    /// before the epoch. Total on every field value; callers that need
    /// a calendar-meaningful result pass a valid date.
    pub fn day_number(&self) -> (n: i64)
        ensures
            n == date_day_number(*self),
            -865566 <= n <= 23248409,
    {
        let year = self.year as i64;
        let month = self.month as i64;
        let day = self.day as i64;
        let y: u64 = if month <= 2 {
            (year + 399) as u64
        } else {
            (year + 400) as u64
        };
        let mp: u64 = if month > 2 {
            (month - 3) as u64
        } else {
            (month + 9) as u64
        };
        let era: u64 = y / 400;
        let yoe: u64 = y % 400;
        proof {
            lemma_fundamental_div_mod(y as int, 400);
        }
        let doy: i64 = ((153 * mp + 2) / 5) as i64 + day - 1;
        let doe: i64 = (yoe * 365 + yoe / 4) as i64 - (yoe / 100) as i64 + doy;
        (era * 146097) as i64 + doe - 865565
    }

    /// Day of the week, counted from Monday (0) to Sunday (6).
    pub fn weekday(&self) -> (w: u8)
        ensures
            w == weekday_from_monday(date_day_number(*self)),
            w < 7,
    {
        let n = self.day_number();
        let shifted: u64 = (n + 865571 + 3) as u64;
        let w = (shifted % 7) as u8;
        proof {
            lemma_mod_multiples_vanish(123653, n + 3, 7);
        }
        w
    }
}

impl Timestamp {
    /// Is this a real calendar date with an in-range time of day?
    pub fn is_valid(&self) -> (r: bool)
        ensures
            r == ts_valid(*self),
    {
        self.date.is_valid() && self.hour < 24 && self.minute < 60 && self.second < 60
    }

    /// Seconds since the epoch; negative before it.
    pub fn epoch_seconds(&self) -> (s: i64)
        ensures
            s == ts_seconds(*self),
    {
        let days = self.date.day_number();
        days * 86400 + (self.hour as i64) * 3600 + (self.minute as i64) * 60 + (self.second as i64)
    }
}

} // verus!
