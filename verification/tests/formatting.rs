//! How counts and times are written.

use chrono::{Local, Utc};
use clust::formatting::{column_of, format_attached, format_started, started_at, LocalTime};

#[test]
fn format_attached_singular() {
    assert_eq!(format_attached(1), "1 terminal");
}

#[test]
fn format_attached_plural() {
    assert_eq!(format_attached(0), "0 terminals");
    assert_eq!(format_attached(3), "3 terminals");
}

#[test]
fn format_started_today_shows_time_only() {
    let now = Utc::now();
    let ts = now.to_rfc3339();
    let result = format_started(&ts);
    let local = now.with_timezone(&Local);
    let expected = local.format("%H:%M").to_string();
    assert_eq!(result, expected);
}

#[test]
fn format_started_other_day_shows_date_and_time() {
    let result = format_started("2025-01-15T10:30:00Z");
    assert!(result.contains("Jan"));
    assert!(result.contains("15"));
}

#[test]
fn format_started_invalid_returns_original() {
    assert_eq!(format_started("not-a-date"), "not-a-date");
    assert_eq!(format_started(""), "");
}

#[test]
fn the_day_is_left_out_today() {
    let at = |month: u32, day: u32| LocalTime { year: 2025, month, day, hour: 4, minute: 5 };
    assert_eq!(started_at(at(3, 7), at(3, 7)), "04:05");
    assert_eq!(started_at(at(3, 7), at(3, 8)), "Mar 07 04:05");
    assert_eq!(started_at(at(12, 31), at(3, 31)), "Dec 31 04:05");
}

#[test]
fn columns_are_filled_up() {
    assert_eq!(column_of("ab", 4), "ab  ");
    assert_eq!(column_of("abcdef", 4), "abcdef");
}
