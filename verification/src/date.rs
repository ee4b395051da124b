//! Calendar dates as plain values, and their conversion to the
//! day-resolution integers (days since January 1st, 2000) that the
//! coordinate mapper works on.

use vstd::prelude::*;

verus! {

/// Gregorian leap-year rule.
pub open spec fn is_leap_year(y: int) -> bool {
    (y % 4 == 0 && y % 100 != 0) || y % 400 == 0
}

/// Length of a month in the proleptic Gregorian calendar.
pub open spec fn days_in_month(y: int, m: int) -> int {
    if m == 2 {
        if is_leap_year(y) {
            29
        } else {
            28
        }
    } else if m == 4 || m == 6 || m == 9 || m == 11 {
        30
    } else {
        31
    }
}

/// Length of a year.
pub open spec fn days_in_year(y: int) -> int {
    if is_leap_year(y) {
        366
    } else {
        365
    }
}

/// Distance of a year from the epoch year, for termination measures.
pub open spec fn year_dist(y: int) -> int {
    if y >= 2000 {
        y - 2000
    } else {
        2000 - y
    }
}

/// Signed day count from the epoch (January 1st, 2000) to January 1st
/// of year `y`.
pub open spec fn days_from_epoch_to_year(y: int) -> int
    decreases year_dist(y),
{
    if y > 2000 {
        days_from_epoch_to_year(y - 1) + days_in_year(y - 1)
    } else if y < 2000 {
        days_from_epoch_to_year(y + 1) - days_in_year(y)
    } else {
        0
    }
}

/// Day count from January 1st of year `y` to the first of month `m`.
pub open spec fn days_before_month(y: int, m: int) -> int
    decreases m,
{
    if m <= 1 {
        0
    } else {
        days_before_month(y, m - 1) + days_in_month(y, m - 1)
    }
}

/// Signed day count from the epoch to a calendar date.
pub open spec fn days_from_epoch(y: int, m: int, d: int) -> int {
    days_from_epoch_to_year(y) + days_before_month(y, m) + (d - 1)
}

/// The year offset grows by at most 366 days per year away from the
/// epoch.
proof fn lemma_year_days_bounds(y: int)
    requires
        1600 <= y <= 10000,
    ensures
        y >= 2000 ==> 0 <= days_from_epoch_to_year(y) <= 366 * (y - 2000),
        y < 2000 ==> -366 * (2000 - y) <= days_from_epoch_to_year(y) <= 0,
    decreases year_dist(y),
{
    if y > 2000 {
        lemma_year_days_bounds(y - 1);
    } else if y < 2000 {
        lemma_year_days_bounds(y + 1);
    }
}

/// The day count before a month is at most 31 days per elapsed month.
proof fn lemma_days_before_month_bounds(y: int, m: int)
    requires
        1 <= m <= 13,
    ensures
        0 <= days_before_month(y, m) <= 31 * (m - 1),
    decreases m,
{
    if m > 1 {
        lemma_days_before_month_bounds(y, m - 1);
    }
}

/// A calendar date in the proleptic Gregorian calendar, at day
/// resolution: no time zone or time-of-day handling exists anywhere in
/// the core.
#[derive(Clone, Copy, PartialEq, Eq, Structural, Debug)]
pub struct Date {
    pub year: i32,
    pub month: u8,
    pub day: u8,
}

impl Date {
    /// A real calendar date within the supported year range.
    pub open spec fn wf(self) -> bool {
        &&& 1600 <= self.year <= 9999
        &&& 1 <= self.month <= 12
        &&& 1 <= self.day <= days_in_month(self.year as int, self.month as int)
    }

    /// Whole days between the epoch (January 1st, 2000) and this date;
    /// negative before the epoch.
    pub fn days_since_epoch(&self) -> (r: i64)
        requires
            self.wf(),
        ensures
            r == days_from_epoch(self.year as int, self.month as int, self.day as int),
    {
        proof {
            lemma_year_days_bounds(self.year as int);
        }
        let mut days: i64 = 0;
        if self.year >= 2000 {
            let mut y: i32 = 2000;
            while y < self.year
                invariant
                    2000 <= y <= self.year,
                    self.year <= 9999,
                    days == days_from_epoch_to_year(y as int),
                    0 <= days <= 366 * (y - 2000),
                decreases self.year - y,
            {
                days = days + days_in_year_count(y);
                y = y + 1;
            }
        } else {
            let mut y: i32 = self.year;
            while y < 2000
                invariant
                    self.year <= y <= 2000,
                    1600 <= self.year,
                    days == days_from_epoch_to_year(self.year as int) - days_from_epoch_to_year(
                        y as int,
                    ),
                    -366 * (2000 - self.year) <= days <= 0,
                decreases 2000 - y,
            {
                proof {
                    lemma_year_days_bounds(self.year as int);
                    lemma_year_days_bounds(y as int);
                    lemma_year_days_bounds(y as int + 1);
                }
                days = days - days_in_year_count(y);
                y = y + 1;
            }
        }
        proof {
            lemma_days_before_month_bounds(self.year as int, self.month as int);
        }
        let mut m: u8 = 1;
        while m < self.month
            invariant
                1 <= m <= self.month,
                self.month <= 12,
                1600 <= self.year,
                days == days_from_epoch_to_year(self.year as int) + days_before_month(
                    self.year as int,
                    m as int,
                ),
                -0x40000 <= days - days_before_month(self.year as int, m as int) <= 0x300000,
                0 <= days_before_month(self.year as int, m as int) <= 31 * (m - 1),
            decreases self.month - m,
        {
            proof {
                lemma_days_before_month_bounds(self.year as int, m as int + 1);
            }
            days = days + days_in_month_count(self.year, m);
            m = m + 1;
        }
        days + (self.day as i64) - 1
    }
}

/// Length of a year, executable.
fn days_in_year_count(y: i32) -> (r: i64)
    requires
        0 <= y,
    ensures
        r == days_in_year(y as int),
{
    if is_leap(y) {
        366
    } else {
        365
    }
}

/// Length of a month, executable.
fn days_in_month_count(y: i32, m: u8) -> (r: i64)
    requires
        0 <= y,
    ensures
        r == days_in_month(y as int, m as int),
{
    if m == 2 {
        if is_leap(y) {
            29
        } else {
            28
        }
    } else if m == 4 || m == 6 || m == 9 || m == 11 {
        30
    } else {
        31
    }
}

/// Gregorian leap-year test, executable.
fn is_leap(y: i32) -> (r: bool)
    requires
        0 <= y,
    ensures
        r == is_leap_year(y as int),
{
    let yu = y as u32;
    (yu % 4 == 0 && yu % 100 != 0) || yu % 400 == 0
}

} // verus!
