use quest_store::date::{days_in_month, days_left, is_leap_year, working_days_until, Date};

fn d(y: u32, m: u8, day: u8) -> Date {
    Date::from_ymd(y, m, day).unwrap()
}

#[test]
fn working_days_same_day_weekday() {
    // Today is Wednesday 2024-01-03; the inclusive range holds today only.
    let today = d(2024, 1, 3);
    assert_eq!(working_days_until(&today, &today), 1);
}

#[test]
fn working_days_to_saturday() {
    // Wednesday through Saturday: Wed, Thu, Fri count.
    assert_eq!(working_days_until(&d(2024, 1, 6), &d(2024, 1, 3)), 3);
}

#[test]
fn working_days_over_weekend() {
    // Wednesday through Monday: the weekend is excluded.
    assert_eq!(working_days_until(&d(2024, 1, 8), &d(2024, 1, 3)), 4);
}

#[test]
fn working_days_past_deadline() {
    // A deadline before today yields an empty range, never a negative count.
    assert_eq!(working_days_until(&d(2024, 1, 1), &d(2024, 1, 3)), 0);
}

#[test]
fn working_days_same_day_weekend() {
    let saturday = d(2024, 1, 6);
    assert_eq!(working_days_until(&saturday, &saturday), 0);
}

#[test]
fn working_days_whole_weeks() {
    // Wednesday to the Tuesday four weeks later: exactly five per week.
    assert_eq!(working_days_until(&d(2024, 1, 9), &d(2024, 1, 3)), 5);
    assert_eq!(working_days_until(&d(2024, 1, 30), &d(2024, 1, 3)), 20);
}

#[test]
fn working_days_across_years() {
    // 2024 is a leap year of 366 days, 52 weeks and 2 days (Mon, Tue).
    assert_eq!(working_days_until(&d(2024, 12, 31), &d(2024, 1, 1)), 262);
}

#[test]
fn day_number_starts_at_epoch() {
    assert_eq!(d(1, 1, 1).day_number(), 0);
}

#[test]
fn day_number_of_known_dates() {
    // January 1 of 1970 is day 719162, a Thursday (719162 % 7 == 3).
    assert_eq!(d(1970, 1, 1).day_number(), 719_162);
    // January 3 of 2024 is a Wednesday (remainder 2).
    assert_eq!(d(2024, 1, 3).day_number() % 7, 2);
}

#[test]
fn leap_year_rule() {
    assert!(is_leap_year(2024));
    assert!(!is_leap_year(2023));
    assert!(!is_leap_year(1900));
    assert!(is_leap_year(2000));
}

#[test]
fn month_lengths() {
    assert_eq!(days_in_month(2024, 2), 29);
    assert_eq!(days_in_month(2023, 2), 28);
    assert_eq!(days_in_month(2024, 4), 30);
    assert_eq!(days_in_month(2024, 1), 31);
    assert_eq!(days_in_month(2024, 12), 31);
}

#[test]
fn from_ymd_accepts_only_calendar_dates() {
    assert!(Date::from_ymd(2024, 2, 29).is_some());
    assert!(Date::from_ymd(2023, 2, 29).is_none());
    assert!(Date::from_ymd(2024, 4, 31).is_none());
    assert!(Date::from_ymd(2024, 0, 1).is_none());
    assert!(Date::from_ymd(2024, 13, 1).is_none());
    assert!(Date::from_ymd(2024, 1, 0).is_none());
    assert!(Date::from_ymd(0, 1, 1).is_none());
    assert!(Date::from_ymd(10_000, 1, 1).is_none());
}

#[test]
fn days_left_counts_from_the_real_clock() {
    // The farthest supported deadline lies ahead of any clock this
    // test runs under, so a genuine current date yields a positive count.
    let far = d(9999, 12, 31);
    assert!(days_left(&far) > 0);
    // A deadline far in the past yields zero.
    assert_eq!(days_left(&d(1, 1, 1)), 0);
}
