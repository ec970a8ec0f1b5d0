use bluedot::time::{Date, Timestamp};

#[test]
fn epoch_is_1970_01_01() {
    assert_eq!(Date::from_unix_days(0), Date::new(1970, 1, 1));
}

#[test]
fn leap_day_2000() {
    // 30 years x 365 + 7 leap days (72..96) = 10957 days to 2000-01-01; +59 to Feb 29.
    assert_eq!(Date::from_unix_days(10_957 + 59), Date::new(2000, 2, 29));
}

#[test]
fn day_before_epoch() {
    assert_eq!(Date::from_unix_days(-1), Date::new(1969, 12, 31));
}

#[test]
fn next_day_rolls_months_years_and_leap_days() {
    assert_eq!(Date::new(2026, 9, 2).next_day(), Date::new(2026, 9, 3));
    assert_eq!(Date::new(2026, 9, 30).next_day(), Date::new(2026, 10, 1));
    assert_eq!(Date::new(2026, 12, 31).next_day(), Date::new(2027, 1, 1));
    assert_eq!(Date::new(2024, 2, 28).next_day(), Date::new(2024, 2, 29));
    assert_eq!(Date::new(2023, 2, 28).next_day(), Date::new(2023, 3, 1));
    assert_eq!(Date::new(2000, 2, 28).next_day(), Date::new(2000, 2, 29));
    assert_eq!(Date::new(1900, 2, 28).next_day(), Date::new(1900, 3, 1));
}

#[test]
fn timestamp_formats_rfc3339() {
    let t = Timestamp {
        unix_seconds: 1_700_000_000,
    };
    assert_eq!(t.to_string(), "2023-11-14T22:13:20Z");
    // Both types serialize as their text (`collect_str`).
    assert_eq!(
        serde_json::to_string(&t.to_string()).unwrap(),
        "\"2023-11-14T22:13:20Z\""
    );
    assert_eq!(
        serde_json::to_string(&Date::new(2024, 12, 12).to_string()).unwrap(),
        "\"2024-12-12\""
    );
}

#[test]
fn day_numbers_and_dates_round_trip() {
    // Stepping a date forward is counting one more day.
    let mut d = Date::from_unix_days(-800);
    for n in -800i64..800 {
        assert_eq!(d, Date::from_unix_days(n));
        d = d.next_day();
    }
}

#[test]
fn far_dates_convert() {
    assert_eq!(Date::from_unix_days(-719_468), Date::new(0, 3, 1));
    assert_eq!(Date::from_unix_days(2_932_896), Date::new(9999, 12, 31));
    assert_eq!(Date::from_unix_days(-719_469), Date::new(0, 2, 29));
}

#[test]
fn timestamp_date_rounds_toward_earlier_days() {
    assert_eq!(Timestamp { unix_seconds: -1 }.date(), Date::new(1969, 12, 31));
    assert_eq!(Timestamp { unix_seconds: 86_399 }.date(), Date::new(1970, 1, 1));
    assert_eq!(Timestamp { unix_seconds: -1 }.to_string(), "1969-12-31T23:59:59Z");
    assert_eq!(Timestamp { unix_seconds: 0 }.to_string(), "1970-01-01T00:00:00Z");
}

#[test]
fn clock_readings_become_timestamps() {
    assert_eq!(Timestamp::from_clock_reading(Some(42)).unix_seconds, 42);
    assert_eq!(Timestamp::from_clock_reading(None).unix_seconds, 0);
    assert!(Timestamp::now().unix_seconds > 1_700_000_000);
}

#[test]
fn dates_print_padded() {
    assert_eq!(Date::new(7, 3, 9).to_string(), "0007-03-09");
    assert_eq!(Date::new(-1, 1, 1).to_string(), "-001-01-01");
}

#[test]
fn later_day_counts_give_later_dates() {
    let counts = [-100_000_000_000i64, -719_469, -1, 0, 59, 10_957 + 59, 2_932_896, 100_000_000_000];
    for w in counts.windows(2) {
        assert!(Date::from_unix_days(w[0]) < Date::from_unix_days(w[1]), "{} {}", w[0], w[1]);
    }
    let far = Date::from_unix_days(100_000_000_000);
    assert!(far.month >= 1 && far.month <= 12 && far.day >= 1 && far.day <= 31);
}
