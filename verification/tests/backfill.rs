use wazuh_slack::backfill::{backfill_floor, backfill_floor_at};

#[test]
fn floor_is_in_the_past() {
    let now = chrono::Utc::now().timestamp();
    let f = backfill_floor(90);
    assert!(f < now);
    assert!((now - f - 7_776_000).abs() < 5);
}

#[test]
fn zero_days_is_now() {
    let now = chrono::Utc::now().timestamp();
    assert!((backfill_floor(0) - now).abs() < 5);
}

#[test]
fn a_day_has_so_many_seconds() {
    assert_eq!(backfill_floor_at(1_000_000, 1), 913_600);
    assert_eq!(backfill_floor_at(1_000_000, 90), -6_776_000);
    assert_eq!(backfill_floor_at(0, 0), 0);
}

#[test]
fn the_floor_stops_at_the_end_of_the_numbers() {
    assert_eq!(backfill_floor_at(5, u64::MAX), 5 - i64::MAX);
    assert_eq!(backfill_floor_at(-5, u64::MAX), i64::MIN);
    assert_eq!(backfill_floor_at(i64::MIN, 1), i64::MIN);
    assert_eq!(backfill_floor_at(7, i64::MAX as u64), 7 - i64::MAX);
}
