//! Calendar timestamps for meter samples.
//!
//! A timestamp is a naive UTC wall-clock value: year, month, day, hour and
//! minute, with no time zone attached. The module gives each valid timestamp
//! a day number and a minute number in the proleptic Gregorian calendar, so
//! that gaps between samples and calendar-date arithmetic are plain integer
//! arithmetic.

use vstd::prelude::*;

verus! {

/// Years are kept in the four-digit range of the device's export format.
pub const MIN_YEAR: u16 = 1;

pub const MAX_YEAR: u16 = 9999;

#[derive(Clone, Copy, Debug, PartialEq, Eq, Structural)]
pub struct Timestamp {
    pub year: u16,
    pub month: u8,
    pub day: u8,
    pub hour: u8,
    pub minute: u8,
}

pub open spec fn is_leap_year(y: int) -> bool {
    y % 4 == 0 && (y % 100 != 0 || y % 400 == 0)
}

pub open spec fn days_in_year(y: int) -> int {
    if is_leap_year(y) {
        366
    } else {
        365
    }
}

pub open spec fn days_in_month(y: int, m: int) -> int {
    if m == 1 {
        31
    } else if m == 2 {
        if is_leap_year(y) {
            29
        } else {
            28
        }
    } else if m == 3 {
        31
    } else if m == 4 {
        30
    } else if m == 5 {
        31
    } else if m == 6 {
        30
    } else if m == 7 {
        31
    } else if m == 8 {
        31
    } else if m == 9 {
        30
    } else if m == 10 {
        31
    } else if m == 11 {
        30
    } else {
        31
    }
}

/// Days in all years before `y`, counted from year 1.
pub open spec fn days_before_year(y: int) -> int
    decreases y,
{
    if y <= 1 {
        0
    } else {
        days_before_year(y - 1) + days_in_year(y - 1)
    }
}

/// Days in all months of year `y` before month `m`.
pub open spec fn days_before_month(y: int, m: int) -> int
    decreases m,
{
    if m <= 1 {
        0
    } else {
        days_before_month(y, m - 1) + days_in_month(y, m - 1)
    }
}

/// Number of days from 0001-01-01 up to (not through) 10000-01-01.
pub open spec fn day_limit() -> int {
    days_before_year(10000)
}

/// Number of minutes in the whole supported range of timestamps.
pub open spec fn minute_limit() -> int {
    day_limit() * 1440
}

/// A loose literal ceiling on `minute_limit()`, convenient for overflow
/// bounds: 366 * 9999 * 1440.
pub const MINUTE_CEILING: u64 = 5_269_872_960;

impl Timestamp {
    /// The timestamp is a real calendar date and wall-clock time of the
    /// supported range.
    pub open spec fn valid(self) -> bool {
        &&& MIN_YEAR <= self.year <= MAX_YEAR
        &&& 1 <= self.month <= 12
        &&& 1 <= self.day <= days_in_month(self.year as int, self.month as int)
        &&& self.hour < 24
        &&& self.minute < 60
    }

    /// Days since 0001-01-01 (which is day 0).
    pub open spec fn day_number(self) -> int {
        days_before_year(self.year as int) + days_before_month(self.year as int, self.month as int)
            + self.day - 1
    }

    /// Minutes since 0001-01-01 00:00.
    pub open spec fn minute_number(self) -> int {
        self.day_number() * 1440 + self.hour * 60 + self.minute
    }

    /// The date part alone, at midnight.
    pub open spec fn spec_date(self) -> Timestamp {
        Timestamp { year: self.year, month: self.month, day: self.day, hour: 0, minute: 0 }
    }
}

pub fn leap_year(y: u16) -> (r: bool)
    ensures
        r == is_leap_year(y as int),
{
    y % 4 == 0 && (y % 100 != 0 || y % 400 == 0)
}

pub fn month_length(y: u16, m: u8) -> (r: u8)
    requires
        1 <= m <= 12,
    ensures
        r == days_in_month(y as int, m as int),
{
    if m == 2 {
        if leap_year(y) {
            29
        } else {
            28
        }
    } else if m == 4 || m == 6 || m == 9 || m == 11 {
        30
    } else {
        31
    }
}

proof fn lemma_days_before_year_nonneg(y: int)
    ensures
        days_before_year(y) >= 0,
    decreases y,
{
    if y > 1 {
        lemma_days_before_year_nonneg(y - 1);
    }
}

proof fn lemma_days_before_month_nonneg(y: int, m: int)
    ensures
        days_before_month(y, m) >= 0,
    decreases m,
{
    if m > 1 {
        lemma_days_before_month_nonneg(y, m - 1);
    }
}

/// Later years have at least as many days before them; each year adds at
/// least 365 days.
pub proof fn lemma_days_before_year_monotone(a: int, b: int)
    requires
        1 <= a <= b,
    ensures
        days_before_year(a) <= days_before_year(b),
        days_before_year(a) + 365 * (b - a) <= days_before_year(b),
    decreases b - a,
{
    if a < b {
        lemma_days_before_year_monotone(a, b - 1);
        assert(365 * (b - a) == 365 * (b - 1 - a) + 365) by (nonlinear_arith);
    }
}

/// Each year holds at most 366 days, so the day count up to year `y` is at
/// most 366 per elapsed year.
pub proof fn lemma_days_before_year_upper(y: int)
    requires
        y >= 1,
    ensures
        days_before_year(y) <= 366 * (y - 1),
    decreases y,
{
    if y > 1 {
        lemma_days_before_year_upper(y - 1);
    }
}

/// A whole year's months sum to the year's length.
proof fn lemma_months_fill_year(y: int)
    ensures
        days_before_month(y, 13) == days_in_year(y),
{
    reveal_with_fuel(days_before_month, 13);
}

/// Bounds of the day number within its year.
pub proof fn lemma_day_number_in_year(t: Timestamp)
    requires
        t.valid(),
    ensures
        days_before_year(t.year as int) <= t.day_number(),
        t.day_number() < days_before_year(t.year as int + 1),
{
    lemma_days_before_month_nonneg(t.year as int, t.month as int);
    assert(days_before_month(t.year as int, t.month as int) + days_in_month(
        t.year as int,
        t.month as int,
    ) <= days_in_year(t.year as int)) by {
        lemma_months_fill_year(t.year as int);
        lemma_month_prefix_monotone(t.year as int, t.month as int + 1, 13);
    }
}

/// Months later in the year have at least as many days before them.
proof fn lemma_month_prefix_monotone(y: int, a: int, b: int)
    requires
        a <= b,
    ensures
        days_before_month(y, a) <= days_before_month(y, b),
    decreases b - a,
{
    if a < b {
        lemma_month_prefix_monotone(y, a, b - 1);
    }
}

/// Every valid timestamp's day and minute numbers lie under the fixed limits.
pub proof fn lemma_day_number_bounds(t: Timestamp)
    requires
        t.valid(),
    ensures
        0 <= t.day_number() < day_limit(),
        0 <= t.minute_number() < minute_limit(),
        minute_limit() <= MINUTE_CEILING,
{
    lemma_day_number_in_year(t);
    lemma_days_before_year_nonneg(t.year as int);
    lemma_days_before_month_nonneg(t.year as int, t.month as int);
    lemma_days_before_year_monotone(t.year as int + 1, 10000);
    lemma_days_before_year_upper(10000);
    assert(t.day_number() * 1440 + 1440 <= day_limit() * 1440) by (nonlinear_arith)
        requires
            t.day_number() + 1 <= day_limit(),
    ;
    assert(day_limit() * 1440 <= 366 * 9999 * 1440) by (nonlinear_arith)
        requires
            day_limit() <= 366 * 9999,
    ;
}

pub fn days_before_year_of(y: u16) -> (r: u32)
    requires
        y <= 10000,
    ensures
        r == days_before_year(y as int),
{
    let mut i: u16 = 1;
    let mut acc: u32 = 0;
    while i < y
        invariant
            1 <= i,
            i <= y || i == 1,
            y <= 10000,
            acc == days_before_year(i as int),
            acc <= 366 * (i - 1),
        decreases y - i,
    {
        acc = acc + if leap_year(i) {
            366
        } else {
            365
        };
        i = i + 1;
    }
    acc
}

pub fn days_before_month_of(y: u16, m: u8) -> (r: u16)
    requires
        1 <= m <= 12,
    ensures
        r == days_before_month(y as int, m as int),
{
    let mut i: u8 = 1;
    let mut acc: u16 = 0;
    while i < m
        invariant
            1 <= i <= m <= 12,
            acc == days_before_month(y as int, i as int),
            acc <= 31 * (i - 1),
        decreases m - i,
    {
        acc = acc + month_length(y, i) as u16;
        i = i + 1;
    }
    acc
}

impl Timestamp {
    pub fn to_day_number(&self) -> (r: u32)
        requires
            self.valid(),
        ensures
            r == self.day_number(),
            r < day_limit(),
    {
        proof {
            lemma_day_number_bounds(*self);
            lemma_days_before_year_nonneg(self.year as int);
            lemma_days_before_month_nonneg(self.year as int, self.month as int);
        }
        days_before_year_of(self.year) + days_before_month_of(self.year, self.month) as u32
            + self.day as u32 - 1
    }

    pub fn to_minute_number(&self) -> (r: u64)
        requires
            self.valid(),
        ensures
            r == self.minute_number(),
            r < minute_limit(),
    {
        proof {
            lemma_day_number_bounds(*self);
        }
        self.to_day_number() as u64 * 1440 + self.hour as u64 * 60 + self.minute as u64
    }

    pub fn date(&self) -> (r: Timestamp)
        ensures
            r == self.spec_date(),
    {
        Timestamp { year: self.year, month: self.month, day: self.day, hour: 0, minute: 0 }
    }
}

/// The calendar day after the given one, keeping the time of day.
pub fn next_day(t: &Timestamp) -> (r: Timestamp)
    requires
        t.valid(),
        t.day_number() + 1 < day_limit(),
    ensures
        r.valid(),
        r.day_number() == t.day_number() + 1,
        r.hour == t.hour,
        r.minute == t.minute,
{
    let dim = month_length(t.year, t.month);
    if t.day < dim {
        Timestamp { day: t.day + 1, ..*t }
    } else if t.month < 12 {
        Timestamp { month: t.month + 1, day: 1, ..*t }
    } else {
        proof {
            lemma_months_fill_year(t.year as int);
            assert(t.day_number() + 1 == days_before_year(t.year as int + 1));
            if t.year as int + 1 >= 10000 {
                lemma_days_before_year_monotone(10000, t.year as int + 1);
            }
        }
        Timestamp { year: t.year + 1, month: 1, day: 1, ..*t }
    }
}

/// The calendar day before the given one, keeping the time of day.
pub fn prev_day(t: &Timestamp) -> (r: Timestamp)
    requires
        t.valid(),
        t.day_number() >= 1,
    ensures
        r.valid(),
        r.day_number() == t.day_number() - 1,
        r.hour == t.hour,
        r.minute == t.minute,
{
    if t.day > 1 {
        Timestamp { day: t.day - 1, ..*t }
    } else if t.month > 1 {
        let dim = month_length(t.year, t.month - 1);
        Timestamp { month: t.month - 1, day: dim, ..*t }
    } else {
        proof {
            lemma_days_before_year_nonneg(t.year as int - 1);
            lemma_months_fill_year(t.year as int - 1);
        }
        Timestamp { year: t.year - 1, month: 12, day: 31, ..*t }
    }
}

/// Moves a date by a signed number of days, or reports that the result falls
/// outside the supported calendar range.
pub fn add_days(t: &Timestamp, n: i64) -> (r: Option<Timestamp>)
    requires
        t.valid(),
    ensures
        match r {
            Some(d) => {
                &&& d.valid()
                &&& d.day_number() == t.day_number() + n
                &&& d.hour == t.hour
                &&& d.minute == t.minute
            },
            None => !(0 <= t.day_number() + n < day_limit()),
        },
{
    proof {
        lemma_day_number_bounds(*t);
        lemma_days_before_year_upper(10000);
        lemma_days_before_year_nonneg(10000);
    }
    let lim: i64 = days_before_year_of(10000) as i64;
    let start: i64 = t.to_day_number() as i64;
    if n > lim || n < -lim {
        return None;
    }
    let target: i64 = start + n;
    if target < 0 || target >= lim {
        return None;
    }
    let mut cur: Timestamp = *t;
    let mut cur_day: i64 = start;
    if cur_day <= target {
        while cur_day < target
            invariant
                cur.valid(),
                cur_day == cur.day_number(),
                cur_day <= target < day_limit(),
                cur.hour == t.hour,
                cur.minute == t.minute,
            decreases target - cur_day,
        {
            cur = next_day(&cur);
            cur_day = cur_day + 1;
        }
    } else {
        while cur_day > target
            invariant
                cur.valid(),
                cur_day == cur.day_number(),
                cur_day >= target >= 0,
                cur.hour == t.hour,
                cur.minute == t.minute,
            decreases cur_day - target,
        {
            cur = prev_day(&cur);
            cur_day = cur_day - 1;
        }
    }
    Some(cur)
}

} // verus!
