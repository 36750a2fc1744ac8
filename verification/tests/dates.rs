use agenda::dates::{days_in_month, parse_data, CalendarDate};
use agenda::render::render_slot;

#[test]
fn parse_accepts_real_dates_only() {
    let d = parse_data("2025-12-01").unwrap();
    assert_eq!(d, CalendarDate { year: 2025, month: 12, day: 1 });
    assert_eq!(parse_data("2024-02-29").unwrap().day, 29);
    assert!(parse_data("2023-02-29").is_none());
    assert!(parse_data("1900-02-29").is_none());
    assert_eq!(parse_data("2000-02-29").unwrap().month, 2);
    assert!(parse_data("2025-00-10").is_none());
    assert!(parse_data("2025-13-10").is_none());
    assert!(parse_data("2025-04-31").is_none());
    assert!(parse_data("2025-4-31").is_none());
    assert!(parse_data("2025-12-01 ").is_none());
    assert!(parse_data("25-12-01").is_none());
    assert!(parse_data("").is_none());
    assert!(parse_data("aaaa-bb-cc").is_none());
}

#[test]
fn weekday_follows_the_monday_zero_convention() {
    // 2025-12-01 is a Monday, 1970-01-01 was a Thursday,
    // 2000-02-29 was a Tuesday.
    assert_eq!(parse_data("2025-12-01").unwrap().weekday_from_monday(), 0);
    assert_eq!(parse_data("2025-12-07").unwrap().weekday_from_monday(), 6);
    assert_eq!(parse_data("1970-01-01").unwrap().weekday_from_monday(), 3);
    assert_eq!(parse_data("2000-02-29").unwrap().weekday_from_monday(), 1);
}

#[test]
fn month_lengths_respect_leap_years() {
    assert_eq!(days_in_month(2025, 1), 31);
    assert_eq!(days_in_month(2025, 2), 28);
    assert_eq!(days_in_month(2024, 2), 29);
    assert_eq!(days_in_month(2100, 2), 28);
    assert_eq!(days_in_month(2000, 2), 29);
    assert_eq!(days_in_month(2025, 4), 30);
    assert_eq!(days_in_month(2025, 11), 30);
    assert_eq!(days_in_month(2025, 12), 31);
}

#[test]
fn slots_render_as_naive_local_datetimes() {
    let d = CalendarDate { year: 2025, month: 12, day: 1 };
    assert_eq!(render_slot(&d, 9 * 3600 + 30 * 60), "2025-12-01T09:30:00");
    assert_eq!(render_slot(&d, 0), "2025-12-01T00:00:00");
    assert_eq!(render_slot(&d, 86399), "2025-12-01T23:59:59");
    let early = CalendarDate { year: 80, month: 3, day: 5 };
    assert_eq!(render_slot(&early, 3661), "0080-03-05T01:01:01");
}
