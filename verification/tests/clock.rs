use chrono::NaiveDate;
use froklog::clock::{choose_epoch, epoch_in_zone, local_utc_offset_secs, naive_log_time_to_epoch};

fn reading(y: i32, mo: u32, d: u32, h: u32, mi: u32, s: u32) -> i64 {
    NaiveDate::from_ymd_opt(y, mo, d)
        .unwrap()
        .and_hms_opt(h, mi, s)
        .unwrap()
        .and_utc()
        .timestamp()
}

#[test]
fn epoch_is_monotonic_across_consecutive_seconds() {
    let a = naive_log_time_to_epoch(reading(2026, 7, 30, 20, 15, 1), 0);
    let b = naive_log_time_to_epoch(reading(2026, 7, 30, 20, 15, 2), 0);
    assert_eq!(b - a, 1);
}

#[test]
fn epoch_differs_from_fake_utc_by_tz_offset() {
    // Unless the machine runs in UTC, true epoch != fake-UTC epoch, and
    // the difference is exactly a whole number of minutes (a tz offset).
    let fake = reading(2026, 1, 15, 12, 0, 0);
    let real = naive_log_time_to_epoch(fake, 0);
    assert_eq!((real - fake) % 60, 0);
}

#[test]
fn skew_is_applied() {
    let naive = reading(2026, 7, 30, 10, 0, 0);
    let before = naive_log_time_to_epoch(naive, 0);
    let after = naive_log_time_to_epoch(naive, 7);
    assert_eq!(after - before, 7);
}

#[test]
fn zones_apply_the_rule_of_the_date() {
    let zone = Some("America/New_York".to_string());
    let summer = reading(2026, 7, 30, 20, 15, 0);
    let winter = reading(2026, 1, 15, 12, 0, 0);
    assert_eq!(epoch_in_zone(&zone, summer) - summer, 4 * 3600);
    assert_eq!(epoch_in_zone(&zone, winter) - winter, 5 * 3600);
}

#[test]
fn repeated_hours_are_the_earlier_ones() {
    // 2026-11-01 01:30 occurs twice in New York; the first is in summer time.
    let zone = Some("America/New_York".to_string());
    let t = reading(2026, 11, 1, 1, 30, 0);
    assert_eq!(epoch_in_zone(&zone, t) - t, 4 * 3600);
}

#[test]
fn skipped_hours_are_shifted() {
    // 2026-03-08 02:30 never occurs in New York: it is read as 03:30.
    let zone = Some("America/New_York".to_string());
    let t = reading(2026, 3, 8, 2, 30, 0);
    assert_eq!(epoch_in_zone(&zone, t), t + 3600 + 4 * 3600);
}

#[test]
fn fallbacks_come_in_order() {
    assert_eq!(choose_epoch(Some(1), Some(2), Some(3), 4), 1);
    assert_eq!(choose_epoch(None, Some(2), Some(3), 4), 2);
    assert_eq!(choose_epoch(None, None, Some(3), 4), 3);
    assert_eq!(choose_epoch(None, None, None, 4), 4);
}

#[test]
fn local_offsets_are_less_than_a_day() {
    let offset = local_utc_offset_secs();
    assert!(-86400 < offset && offset < 86400);
    assert_eq!(offset % 60, 0);
}

#[test]
fn skews_far_away_still_shift() {
    let naive = reading(2026, 7, 30, 10, 0, 0);
    let base = naive_log_time_to_epoch(naive, 0);
    let far = i64::MAX - naive - 90_000;
    assert_eq!(naive_log_time_to_epoch(naive, far) - base, far);
    assert_eq!(naive_log_time_to_epoch(naive, -7) - naive_log_time_to_epoch(naive, 5), -12);
}
