//! Calendar dates and their arithmetic.
//!
//! Dates live in the proleptic Gregorian calendar, restricted to the
//! years 0 through 9999 (the range a four-digit year can spell).  Every
//! operation is specified through [`Date::day_index`], the number of
//! days since 0000-01-01, which orders the supported dates bijectively:
//! going back `n` days, finding a weekday, or composing a UTC timestamp
//! are all statements about that index.

use vstd::prelude::*;
use vstd::arithmetic::div_mod::{
    lemma_fundamental_div_mod,
    lemma_fundamental_div_mod_converse_div,
    lemma_mod_add_multiples_vanish,
    lemma_mod_division_less_than_divisor,
    lemma_mod_multiples_basic,
};

verus! {

/// The number of days in the years 0 through 9999; one more than the
/// largest valid day index.
pub const DAY_RANGE: i64 = 3652425;

/// The day index of 1970-01-01, the Unix epoch.
pub const EPOCH_DAY_INDEX: i64 = 719528;

/// A calendar date.  Valid dates (see [`Date::valid`]) have a year
/// between 0 and 9999 and a day that exists in their month.
#[derive(Clone, Copy, PartialEq, Eq, Structural, Debug)]
pub struct Date {
    pub year: i32,
    pub month: u8,
    pub day: u8,
}

/// Whether `y` is a leap year: divisible by 4, except century years,
/// which must be divisible by 400.
pub open spec fn is_leap_year(y: int) -> bool {
    (y % 4 == 0 && y % 100 != 0) || y % 400 == 0
}

/// The number of days in year `y`.
pub open spec fn days_in_year(y: int) -> int {
    if is_leap_year(y) {
        366
    } else {
        365
    }
}

/// The number of days in month `m` of year `y`.
pub open spec fn days_in_month(y: int, m: int) -> int {
    if m == 2 {
        if is_leap_year(y) {
            29
        } else {
            28
        }
    } else if m == 4 || m == 6 || m == 9 || m == 11 {
        30
    } else {
        31
    }
}

/// The number of days of year `y` that precede month `m`.
pub open spec fn days_before_month(y: int, m: int) -> int {
    let base: int = if m == 1 {
        0
    } else if m == 2 {
        31
    } else if m == 3 {
        59
    } else if m == 4 {
        90
    } else if m == 5 {
        120
    } else if m == 6 {
        151
    } else if m == 7 {
        181
    } else if m == 8 {
        212
    } else if m == 9 {
        243
    } else if m == 10 {
        273
    } else if m == 11 {
        304
    } else {
        334
    };
    base + if m >= 3 && is_leap_year(y) {
        1int
    } else {
        0int
    }
}

/// The number of leap years among the years 0 (inclusive) through `y`
/// (exclusive).
pub open spec fn leap_years_before(y: int) -> int {
    (y + 3) / 4 - (y + 99) / 100 + (y + 399) / 400
}

/// The number of days in the years 0 (inclusive) through `y`
/// (exclusive); equivalently, the day index of January 1 of year `y`.
pub open spec fn days_before_year(y: int) -> int {
    365 * y + leap_years_before(y)
}

impl Date {
    /// The date denotes an existing day within the supported years.
    pub open spec fn valid(self) -> bool {
        &&& 0 <= self.year <= 9999
        &&& 1 <= self.month <= 12
        &&& 1 <= self.day <= days_in_month(self.year as int, self.month as int)
    }

    /// The number of days since 0000-01-01.
    pub open spec fn day_index(self) -> int {
        days_before_year(self.year as int) + days_before_month(
            self.year as int,
            self.month as int,
        ) + self.day - 1
    }

    /// The number of months since 0000-01, used to specify calendar
    /// month arithmetic.
    pub open spec fn months_index(self) -> int {
        12 * self.year + self.month - 1
    }

    /// The day of the week, counted from Monday = 0 through Sunday = 6.
    pub open spec fn spec_weekday(self) -> int {
        (self.day_index() + 5) % 7
    }
}

/// Stepping the quotient: adding 1 to the dividend raises the quotient
/// exactly when the new dividend is a multiple of the divisor.
proof fn lemma_div_step(x: int, d: int)
    requires
        0 <= x,
        0 < d,
    ensures
        (x + 1) / d == x / d + if (x + 1) % d == 0 {
            1int
        } else {
            0int
        },
{
    lemma_fundamental_div_mod(x, d);
    lemma_mod_division_less_than_divisor(x, d);
    let q = x / d;
    let r = x % d;
    if r + 1 == d {
        assert(x + 1 == (q + 1) * d + 0) by (nonlinear_arith)
            requires
                x == d * q + r,
                r + 1 == d,
        ;
        vstd::arithmetic::div_mod::lemma_fundamental_div_mod_converse_div(x + 1, d, q + 1, 0);
        vstd::arithmetic::div_mod::lemma_fundamental_div_mod_converse_mod(x + 1, d, q + 1, 0);
    } else {
        assert(x + 1 == q * d + (r + 1)) by (nonlinear_arith)
            requires
                x == d * q + r,
        ;
        vstd::arithmetic::div_mod::lemma_fundamental_div_mod_converse_div(x + 1, d, q, r + 1);
        vstd::arithmetic::div_mod::lemma_fundamental_div_mod_converse_mod(x + 1, d, q, r + 1);
    }
}

/// Divisibility by 400 implies divisibility by 100 and 4, and
/// divisibility by 100 implies divisibility by 4.
proof fn lemma_divisibility_chain(y: int)
    requires
        0 <= y,
    ensures
        y % 400 == 0 ==> y % 100 == 0 && y % 4 == 0,
        y % 100 == 0 ==> y % 4 == 0,
{
    if y % 400 == 0 {
        lemma_fundamental_div_mod(y, 400);
        assert(y == 100 * (4 * (y / 400)));
        lemma_mod_multiples_basic(4 * (y / 400), 100);
        assert(y == 4 * (100 * (y / 400)));
        lemma_mod_multiples_basic(100 * (y / 400), 4);
    }
    if y % 100 == 0 {
        lemma_fundamental_div_mod(y, 100);
        assert(y == 4 * (25 * (y / 100)));
        lemma_mod_multiples_basic(25 * (y / 100), 4);
    }
}

/// Counting one more year adds one leap year exactly when the year
/// counted is a leap year.
proof fn lemma_leap_years_before_step(y: int)
    requires
        0 <= y,
    ensures
        leap_years_before(y + 1) == leap_years_before(y) + if is_leap_year(y) {
            1int
        } else {
            0int
        },
{
    lemma_div_step(y + 3, 4);
    lemma_mod_add_multiples_vanish(y, 4);
    lemma_mod_division_less_than_divisor(y, 4);
    lemma_div_step(y + 99, 100);
    lemma_mod_add_multiples_vanish(y, 100);
    lemma_mod_division_less_than_divisor(y, 100);
    lemma_div_step(y + 399, 400);
    lemma_mod_add_multiples_vanish(y, 400);
    lemma_mod_division_less_than_divisor(y, 400);
    lemma_divisibility_chain(y);
}

/// January 1 of the next year lies `days_in_year(y)` days after
/// January 1 of year `y`.
pub proof fn lemma_days_before_year_step(y: int)
    requires
        0 <= y,
    ensures
        days_before_year(y + 1) == days_before_year(y) + days_in_year(y),
{
    lemma_leap_years_before_step(y);
}

/// The day index of January 1 grows with the year.
pub proof fn lemma_days_before_year_mono(y1: int, y2: int)
    requires
        0 <= y1 <= y2,
    ensures
        days_before_year(y1) <= days_before_year(y2),
    decreases y2 - y1,
{
    if y1 < y2 {
        lemma_days_before_year_step(y1);
        lemma_days_before_year_mono(y1 + 1, y2);
    }
}

/// The year 0 starts at day index 0.
proof fn lemma_days_before_year_zero()
    ensures
        days_before_year(0) == 0,
{
    lemma_fundamental_div_mod_converse_div(3, 4, 0, 3);
    lemma_fundamental_div_mod_converse_div(99, 100, 0, 99);
    lemma_fundamental_div_mod_converse_div(399, 400, 0, 399);
}

/// The year 10000 starts right after the last supported day.
proof fn lemma_days_before_year_end()
    ensures
        days_before_year(10000) == DAY_RANGE,
{
    lemma_fundamental_div_mod_converse_div(10003, 4, 2500, 3);
    lemma_fundamental_div_mod_converse_div(10099, 100, 100, 99);
    lemma_fundamental_div_mod_converse_div(10399, 400, 25, 399);
}

/// The months of a year partition it: the days before a month plus the
/// days of that month are the days before the next month, and the whole
/// year has `days_in_year` days.
proof fn lemma_days_before_month_step(y: int, m: int)
    requires
        1 <= m <= 12,
    ensures
        m < 12 ==> days_before_month(y, m + 1) == days_before_month(y, m) + days_in_month(y, m),
        days_before_month(y, 12) + days_in_month(y, 12) == days_in_year(y),
{
}

/// The days before a month grow with the month.
proof fn lemma_days_before_month_mono(y: int, m1: int, m2: int)
    requires
        1 <= m1 <= m2 <= 12,
    ensures
        days_before_month(y, m1) <= days_before_month(y, m2),
    decreases m2 - m1,
{
    if m1 < m2 {
        lemma_days_before_month_step(y, m1);
        lemma_days_before_month_mono(y, m1 + 1, m2);
    }
}

/// A valid date's day index lies within its year: at or after that
/// year's January 1, and before the next year's.
proof fn lemma_day_index_year_window(d: Date)
    requires
        d.valid(),
    ensures
        days_before_year(d.year as int) <= d.day_index() < days_before_year(d.year + 1),
{
    let y = d.year as int;
    let m = d.month as int;
    assert(days_before_month(y, m) + d.day <= days_in_year(y)) by {
        lemma_days_before_month_step(y, m);
        if m < 12 {
            lemma_days_before_month_mono(y, m + 1, 12);
            lemma_days_before_month_step(y, 12);
        }
    }
    lemma_days_before_year_step(y);
}

/// A valid date's day index lies in `[0, DAY_RANGE)`.
pub proof fn lemma_day_index_bounds(d: Date)
    requires
        d.valid(),
    ensures
        0 <= d.day_index() < DAY_RANGE,
{
    let y = d.year as int;
    lemma_days_before_year_zero();
    lemma_days_before_year_mono(0, y);
    lemma_day_index_year_window(d);
    lemma_days_before_year_mono(y + 1, 10000);
    lemma_days_before_year_end();
}

/// The day index identifies a valid date: no two valid dates share
/// one.
pub proof fn lemma_day_index_injective(d1: Date, d2: Date)
    requires
        d1.valid(),
        d2.valid(),
        d1.day_index() == d2.day_index(),
    ensures
        d1 == d2,
{
    lemma_day_index_year_window(d1);
    lemma_day_index_year_window(d2);
    if d1.year < d2.year {
        lemma_days_before_year_mono(d1.year + 1, d2.year as int);
    }
    if d2.year < d1.year {
        lemma_days_before_year_mono(d2.year + 1, d1.year as int);
    }
    let y = d1.year as int;
    if d1.month < d2.month {
        lemma_days_before_month_step(y, d1.month as int);
        lemma_days_before_month_mono(y, d1.month + 1, d2.month as int);
    }
    if d2.month < d1.month {
        lemma_days_before_month_step(y, d2.month as int);
        lemma_days_before_month_mono(y, d2.month + 1, d1.month as int);
    }
}

/// Whether `year` is a leap year.
pub fn leap_year(year: i32) -> (r: bool)
    requires
        0 <= year,
    ensures
        r == is_leap_year(year as int),
{
    let y = year as u32;
    (y % 4 == 0 && y % 100 != 0) || y % 400 == 0
}

/// The number of days in month `month` of year `year`.
pub fn month_length(year: i32, month: u8) -> (r: u8)
    requires
        0 <= year,
        1 <= month <= 12,
    ensures
        r == days_in_month(year as int, month as int),
{
    if month == 2 {
        if leap_year(year) {
            29
        } else {
            28
        }
    } else if month == 4 || month == 6 || month == 9 || month == 11 {
        30
    } else {
        31
    }
}

/// The number of days of year `year` that precede month `month`.
fn month_offset(year: i32, month: u8) -> (r: u16)
    requires
        0 <= year,
        1 <= month <= 12,
    ensures
        r == days_before_month(year as int, month as int),
{
    let base: u16 = if month == 1 {
        0
    } else if month == 2 {
        31
    } else if month == 3 {
        59
    } else if month == 4 {
        90
    } else if month == 5 {
        120
    } else if month == 6 {
        151
    } else if month == 7 {
        181
    } else if month == 8 {
        212
    } else if month == 9 {
        243
    } else if month == 10 {
        273
    } else if month == 11 {
        304
    } else {
        334
    };
    if month >= 3 && leap_year(year) {
        base + 1
    } else {
        base
    }
}

/// The number of days in year `year`.
fn year_length(year: i32) -> (r: u16)
    requires
        0 <= year,
    ensures
        r == days_in_year(year as int),
{
    if leap_year(year) {
        366
    } else {
        365
    }
}

/// Validate the parts of a date: the date is returned exactly when it
/// denotes an existing day of the supported years.
pub fn checked_date(year: i32, month: u8, day: u8) -> (r: Option<Date>)
    ensures
        r matches Some(x) ==> x == (Date { year, month, day }) && x.valid(),
        r is None <==> !(Date { year, month, day }).valid(),
{
    if 0 <= year && year <= 9999 && 1 <= month && month <= 12 && 1 <= day && day <= month_length(
        year,
        month,
    ) {
        Some(Date { year, month, day })
    } else {
        None
    }
}

impl Date {
    /// The number of days since 0000-01-01.
    pub fn to_day_index(&self) -> (r: i64)
        requires
            self.valid(),
        ensures
            r == self.day_index(),
    {
        let y = self.year as u32;
        let a = (y + 3) / 4;
        let b = (y + 99) / 100;
        let c = (y + 399) / 400;
        let before_year: i64 = 365 * (y as i64) + (a as i64) - (b as i64) + (c as i64);
        before_year + (month_offset(self.year, self.month) as i64) + (self.day as i64) - 1
    }

    /// The day of the week, counted from Monday = 0 through Sunday = 6.
    pub fn weekday(&self) -> (r: u8)
        requires
            self.valid(),
        ensures
            r == self.spec_weekday(),
            r < 7,
    {
        proof {
            lemma_day_index_bounds(*self);
        }
        let idx = self.to_day_index();
        (((idx + 5) as u64) % 7) as u8
    }
}

/// The date with the given day index.
pub fn from_day_index(n: i64) -> (r: Date)
    requires
        0 <= n < DAY_RANGE,
    ensures
        r.valid(),
        r.day_index() == n,
{
    let n = n as u32;
    let mut y: u32 = 0;
    let mut acc: u32 = 0;
    while acc + (year_length(y as i32) as u32) <= n
        invariant
            y <= 9999,
            acc == days_before_year(y as int),
            acc <= n < DAY_RANGE,
        decreases 10000 - y,
    {
        proof {
            lemma_days_before_year_step(y as int);
            if y == 9999 {
                lemma_days_before_year_end();
            }
        }
        acc = acc + (year_length(y as i32) as u32);
        y = y + 1;
    }
    proof {
        lemma_days_before_year_step(y as int);
    }
    let mut m: u8 = 1;
    while acc + (month_length(y as i32, m) as u32) <= n
        invariant
            y <= 9999,
            1 <= m <= 12,
            acc == days_before_year(y as int) + days_before_month(y as int, m as int),
            acc <= n,
            n < days_before_year(y as int) + days_in_year(y as int),
        decreases 12 - m,
    {
        proof {
            lemma_days_before_month_step(y as int, m as int);
        }
        acc = acc + (month_length(y as i32, m) as u32);
        m = m + 1;
    }
    let day = (n - acc + 1) as u8;
    Date { year: y as i32, month: m, day }
}

/// The date `n` days before `d`, or nothing when that would leave the
/// supported range.
pub fn sub_days(d: &Date, n: u64) -> (r: Option<Date>)
    requires
        d.valid(),
    ensures
        n <= d.day_index() ==> (r matches Some(x) && x.valid() && x.day_index() == d.day_index()
            - n),
        n > d.day_index() ==> r is None,
{
    proof {
        lemma_day_index_bounds(*d);
    }
    let idx = d.to_day_index();
    if n > (idx as u64) {
        None
    } else {
        Some(from_day_index(idx - (n as i64)))
    }
}

/// The day after `d`, or nothing when that would leave the supported
/// range.
pub fn next_day(d: &Date) -> (r: Option<Date>)
    requires
        d.valid(),
    ensures
        d.day_index() + 1 < DAY_RANGE ==> (r matches Some(x) && x.valid() && x.day_index()
            == d.day_index() + 1),
        d.day_index() + 1 >= DAY_RANGE ==> r is None,
{
    proof {
        lemma_day_index_bounds(*d);
    }
    let idx = d.to_day_index();
    if idx + 1 < DAY_RANGE {
        Some(from_day_index(idx + 1))
    } else {
        None
    }
}

/// The first day of the month `count` calendar months before `d`'s
/// month, or nothing when that would leave the supported range.
pub fn month_start_back(d: &Date, count: u32) -> (r: Option<Date>)
    requires
        d.valid(),
    ensures
        count <= d.months_index() ==> (r matches Some(x) && x.valid() && x.day == 1 && x.year
            == (d.months_index() - count) / 12 && x.month == (d.months_index() - count) % 12 + 1),
        count > d.months_index() ==> r is None,
{
    let mi: u32 = (d.year as u32) * 12 + (d.month as u32) - 1;
    if count > mi {
        None
    } else {
        let m0 = mi - count;
        proof {
            lemma_fundamental_div_mod(m0 as int, 12);
            lemma_mod_division_less_than_divisor(m0 as int, 12);
            vstd::arithmetic::div_mod::lemma_div_is_ordered(m0 as int, 119999, 12);
            lemma_fundamental_div_mod_converse_div(119999, 12, 9999, 11);
        }
        Some(Date { year: (m0 / 12) as i32, month: (m0 % 12 + 1) as u8, day: 1 })
    }
}

/// January 1 of the year `count` years before `d`'s year, or nothing
/// when that would leave the supported range.
pub fn year_start_back(d: &Date, count: u32) -> (r: Option<Date>)
    requires
        d.valid(),
    ensures
        count <= d.year ==> (r matches Some(x) && x.valid() && x.year == d.year - count && x.month
            == 1 && x.day == 1),
        count > d.year ==> r is None,
{
    if count > (d.year as u32) {
        None
    } else {
        Some(Date { year: d.year - (count as i32), month: 1, day: 1 })
    }
}

/// The UTC timestamp of the moment `h:mi:s` on day `d`, were that local
/// time read off in UTC itself.
pub open spec fn utc_of(d: Date, h: int, mi: int, s: int) -> int {
    (d.day_index() - EPOCH_DAY_INDEX) * 86400 + h * 3600 + mi * 60 + s
}

/// Compose a UTC timestamp from a date and a time of day, both read in
/// UTC.
pub fn utc_timestamp(d: &Date, h: u8, mi: u8, s: u8) -> (r: i64)
    requires
        d.valid(),
        h < 24,
        mi < 60,
        s < 60,
    ensures
        r == utc_of(*d, h as int, mi as int, s as int),
{
    proof {
        lemma_day_index_bounds(*d);
    }
    let idx = d.to_day_index();
    (idx - EPOCH_DAY_INDEX) * 86400 + (h as i64) * 3600 + (mi as i64) * 60 + (s as i64)
}

} // verus!
