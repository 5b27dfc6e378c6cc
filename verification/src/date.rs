//! Calendar dates and the working-day scheduling calculator.
//!
//! A [`Date`] is a proleptic Gregorian calendar date in the years 1
//! through 9999. Each valid date has a day number: its zero-based
//! index counted from January 1 of year 1, which makes weekday and
//! range arithmetic plain integer arithmetic (day number 0 is a
//! Monday). The calculator counts the working days (Monday through
//! Friday) in the inclusive range from one date to another.

use vstd::prelude::*;

verus! {

/// A Gregorian leap year: divisible by 4, except century years not
/// divisible by 400.
pub open spec fn spec_is_leap_year(y: int) -> bool {
    y % 4 == 0 && (y % 100 != 0 || y % 400 == 0)
}

/// Length in days of month `m` of year `y`.
pub open spec fn spec_days_in_month(y: int, m: int) -> int {
    if m == 2 {
        if spec_is_leap_year(y) {
            29
        } else {
            28
        }
    } else if m == 4 || m == 6 || m == 9 || m == 11 {
        30
    } else {
        31
    }
}

/// Length in days of year `y`.
pub open spec fn spec_days_in_year(y: int) -> int {
    if spec_is_leap_year(y) {
        366
    } else {
        365
    }
}

/// Days contained in all calendar years from year 1 up to, and not
/// including, year `y`.
pub open spec fn spec_days_before_year(y: int) -> int
    decreases y,
{
    if y <= 1 {
        0
    } else {
        spec_days_before_year(y - 1) + spec_days_in_year(y - 1)
    }
}

/// Days contained in the months of year `y` before month `m`.
pub open spec fn spec_days_before_month(y: int, m: int) -> int
    decreases m,
{
    if m <= 1 {
        0
    } else {
        spec_days_before_month(y, m - 1) + spec_days_in_month(y, m - 1)
    }
}

/// A calendar date with no time-of-day component.
#[derive(Clone, Copy, PartialEq, Eq, Structural, Debug)]
pub struct Date {
    pub year: u32,
    pub month: u8,
    pub day: u8,
}

impl Date {
    /// A valid calendar date in the supported range of years.
    pub open spec fn wf(&self) -> bool {
        &&& 1 <= self.year <= 9999
        &&& 1 <= self.month <= 12
        &&& 1 <= self.day
        &&& self.day as int <= spec_days_in_month(self.year as int, self.month as int)
    }

    /// Zero-based index of the date, counted from January 1 of year 1.
    pub open spec fn spec_day_number(&self) -> int {
        spec_days_before_year(self.year as int) + spec_days_before_month(
            self.year as int,
            self.month as int,
        ) + self.day - 1
    }
}

/// Whether `y` is a leap year.
pub fn is_leap_year(y: u32) -> (r: bool)
    ensures
        r == spec_is_leap_year(y as int),
{
    y % 4 == 0 && (y % 100 != 0 || y % 400 == 0)
}

/// The number of days in month `m` of year `y`.
pub fn days_in_month(y: u32, m: u8) -> (r: u8)
    ensures
        r as int == spec_days_in_month(y as int, m as int),
{
    if m == 2 {
        if is_leap_year(y) {
            29
        } else {
            28
        }
    } else if m == 4 || m == 6 || m == 9 || m == 11 {
        30
    } else {
        31
    }
}

impl Date {
    /// Builds the date `year-month-day`, or `None` when the three
    /// numbers do not name a calendar date in the supported years.
    pub fn from_ymd(year: u32, month: u8, day: u8) -> (r: Option<Date>)
        ensures
            match r {
                Some(d) => d.wf() && d.year == year && d.month == month && d.day == day,
                None => !(Date { year, month, day }).wf(),
            },
    {
        if 1 <= year && year <= 9999 && 1 <= month && month <= 12 && 1 <= day && day
            <= days_in_month(year, month) {
            Some(Date { year, month, day })
        } else {
            None
        }
    }

    /// Computes the date's day number by summing the lengths of the
    /// years and months before it.
    pub fn day_number(&self) -> (r: u64)
        requires
            self.wf(),
        ensures
            r as int == self.spec_day_number(),
            r < 3_660_000,
    {
        let mut acc: u64 = 0;
        let mut y: u32 = 1;
        while y < self.year
            invariant
                1 <= y <= self.year <= 9999,
                acc as int == spec_days_before_year(y as int),
                acc as int <= 366 * (y as int - 1),
            decreases self.year - y,
        {
            if is_leap_year(y) {
                acc = acc + 366;
            } else {
                acc = acc + 365;
            }
            y = y + 1;
        }
        let mut m: u8 = 1;
        while m < self.month
            invariant
                1 <= m <= self.month <= 12,
                self.wf(),
                acc as int == spec_days_before_year(self.year as int) + spec_days_before_month(
                    self.year as int,
                    m as int,
                ),
                acc as int <= 366 * 9998 + 31 * (m as int - 1),
            decreases self.month - m,
        {
            acc = acc + days_in_month(self.year, m) as u64;
            m = m + 1;
        }
        acc + self.day as u64 - 1
    }
}

/// Number of working days (day numbers whose weekday is Monday
/// through Friday) among the day numbers from `lo` to `hi`,
/// inclusive; 0 when the range is empty.
pub open spec fn spec_weekday_count(lo: int, hi: int) -> int
    decreases hi - lo + 1,
{
    if hi < lo {
        0
    } else {
        spec_weekday_count(lo, hi - 1) + if hi % 7 < 5 {
            1int
        } else {
            0int
        }
    }
}

/// The working days in the inclusive calendar range from `today` to
/// `deadline`; 0 when the deadline precedes today.
pub open spec fn spec_working_days_until(deadline: Date, today: Date) -> int {
    spec_weekday_count(today.spec_day_number(), deadline.spec_day_number())
}

/// The count of a range is at least 0 and at most the range's length.
pub proof fn lemma_weekday_count_bounds(lo: int, hi: int)
    ensures
        0 <= spec_weekday_count(lo, hi),
        hi < lo ==> spec_weekday_count(lo, hi) == 0,
        lo <= hi ==> spec_weekday_count(lo, hi) <= hi - lo + 1,
    decreases hi - lo + 1,
{
    if lo <= hi {
        lemma_weekday_count_bounds(lo, hi - 1);
    }
}

/// Any seven consecutive days hold each weekday exactly once, so
/// exactly five of them are working days.
proof fn lemma_weekday_count_week(lo: int)
    requires
        lo >= 0,
    ensures
        spec_weekday_count(lo, lo + 6) == 5,
{
    let r = lo % 7;
    assert(0 <= r < 7) by {
        vstd::arithmetic::div_mod::lemma_mod_bound(lo, 7);
    }
    assert forall|i: int| 0 <= i < 7 implies #[trigger] ((lo + i) % 7) == (r + i) % 7 by {
        vstd::arithmetic::div_mod::lemma_add_mod_noop(lo, i, 7);
        vstd::arithmetic::div_mod::lemma_add_mod_noop(r, i, 7);
        vstd::arithmetic::div_mod::lemma_mod_twice(lo, 7);
        assert(i % 7 == i);
    }
    reveal_with_fuel(spec_weekday_count, 8);
    if r == 0 {
        assert(spec_weekday_count(lo, lo + 6) == 5);
    } else if r == 1 {
        assert(spec_weekday_count(lo, lo + 6) == 5);
    } else if r == 2 {
        assert(spec_weekday_count(lo, lo + 6) == 5);
    } else if r == 3 {
        assert(spec_weekday_count(lo, lo + 6) == 5);
    } else if r == 4 {
        assert(spec_weekday_count(lo, lo + 6) == 5);
    } else if r == 5 {
        assert(spec_weekday_count(lo, lo + 6) == 5);
    } else {
        assert(spec_weekday_count(lo, lo + 6) == 5);
    }
}

/// Dropping one whole week from the front of a range removes exactly
/// five working days.
proof fn lemma_weekday_count_drop_week(lo: int, hi: int)
    requires
        lo >= 0,
        lo + 6 <= hi,
    ensures
        spec_weekday_count(lo, hi) == 5 + spec_weekday_count(lo + 7, hi),
    decreases hi - lo,
{
    if hi == lo + 6 {
        lemma_weekday_count_week(lo);
    } else {
        lemma_weekday_count_drop_week(lo, hi - 1);
    }
}

/// Dropping `k` whole weeks from the front of a range removes exactly
/// `5 * k` working days.
proof fn lemma_weekday_count_drop_weeks(lo: int, hi: int, k: int)
    requires
        lo >= 0,
        k >= 0,
        lo + 7 * k <= hi + 1,
    ensures
        spec_weekday_count(lo, hi) == 5 * k + spec_weekday_count(lo + 7 * k, hi),
    decreases k,
{
    if k > 0 {
        lemma_weekday_count_drop_week(lo, hi);
        lemma_weekday_count_drop_weeks(lo + 7, hi, k - 1);
    }
}

/// Counts the working days (Monday through Friday) in the inclusive
/// calendar range from `today` to `deadline`. The count is taken in
/// closed form, five per whole week plus the tail of the range.
pub fn working_days_until(deadline: &Date, today: &Date) -> (r: u64)
    requires
        deadline.wf(),
        today.wf(),
    ensures
        r as int == spec_working_days_until(*deadline, *today),
        r < 3_660_000,
{
    let f = today.day_number();
    let t = deadline.day_number();
    if t < f {
        proof {
            lemma_weekday_count_bounds(f as int, t as int);
        }
        return 0;
    }
    let n = t - f + 1;
    let full: u64 = n / 7;
    proof {
        vstd::arithmetic::div_mod::lemma_fundamental_div_mod(n as int, 7);
        vstd::arithmetic::div_mod::lemma_mod_bound(n as int, 7);
        lemma_weekday_count_drop_weeks(f as int, t as int, full as int);
        lemma_weekday_count_bounds(f as int + 7 * full as int, t as int);
    }
    let mut count: u64 = 5 * full;
    let mut cur: u64 = f + 7 * full;
    while cur <= t
        invariant
            f as int + 7 * full as int <= cur as int <= t as int + 1,
            t < 3_660_000,
            count as int == 5 * full as int + spec_weekday_count(
                f as int + 7 * full as int,
                cur as int - 1,
            ),
            count as int <= 5 * full as int + (cur as int - (f as int + 7 * full as int)),
            7 * full as int <= t as int - f as int + 1,
        decreases t + 1 - cur,
    {
        if cur % 7 < 5 {
            count = count + 1;
        }
        cur = cur + 1;
    }
    proof {
        lemma_weekday_count_drop_weeks(f as int, t as int, full as int);
    }
    count
}

/// Relies on chrono's `Local::now` and `NaiveDate`'s `Datelike`
/// accessors for the current local calendar date: the month and day
/// of a `NaiveDate` always lie in their calendar ranges.
#[verifier::external_body]
fn today_ymd() -> (r: (i64, u32, u32))
    ensures
        1 <= r.1 <= 12,
        1 <= r.2 <= 31,
{
    let today = chrono::Local::now().date_naive();
    (
        chrono::Datelike::year(&today) as i64,
        chrono::Datelike::month(&today),
        chrono::Datelike::day(&today),
    )
}

/// The working days from the current local date to `deadline`,
/// inclusive, as the count of some valid current date; 0 when the
/// deadline has passed, and also when the current date falls outside
/// the supported years.
pub fn days_left(deadline: &Date) -> (r: i64)
    requires
        deadline.wf(),
    ensures
        0 <= r < 3_660_000,
        r != 0 ==> exists|t: Date|
            t.wf() && r as int == spec_working_days_until(*deadline, t),
{
    let (y, m, d) = today_ymd();
    if y < 1 || y > 9999 {
        return 0;
    }
    match Date::from_ymd(y as u32, m as u8, d as u8) {
        Some(t) => {
            let n = working_days_until(deadline, &t);
            proof {
                if n != 0 {
                    assert(t.wf() && n as int == spec_working_days_until(*deadline, t));
                }
            }
            n as i64
        },
        None => 0,
    }
}

} // verus!
