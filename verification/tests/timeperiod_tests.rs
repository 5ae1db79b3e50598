use chrono::TimeZone;
use race_of_sloths::timeperiod::TimePeriod;

fn nanos(y: i32, m: u32, d: u32) -> u64 {
    chrono::Utc
        .with_ymd_and_hms(y, m, d, 12, 0, 0)
        .unwrap()
        .timestamp_nanos_opt()
        .unwrap() as u64
}

#[test]
fn bucket_strings_are_stable_and_exact() {
    // 2024-01-04 is always in ISO week 1.
    let ts = nanos(2024, 1, 4);
    assert_eq!(TimePeriod::Week.time_string(ts).as_str(), "2024W1");
    assert_eq!(TimePeriod::Month.time_string(ts).as_str(), "012024");
    assert_eq!(TimePeriod::Quarter.time_string(ts).as_str(), "2024Q1");
    assert_eq!(TimePeriod::Year.time_string(ts).as_str(), "2024");
    assert_eq!(TimePeriod::AllTime.time_string(ts).as_str(), "all-time");
    // Determinism: the same timestamp always gets the same bucket.
    assert_eq!(
        TimePeriod::Week.time_string(ts),
        TimePeriod::Week.time_string(ts)
    );
}

#[test]
fn bucket_strings_late_year() {
    let ts = nanos(2023, 11, 14);
    assert_eq!(TimePeriod::Week.time_string(ts).as_str(), "2023W46");
    assert_eq!(TimePeriod::Month.time_string(ts).as_str(), "112023");
    assert_eq!(TimePeriod::Quarter.time_string(ts).as_str(), "2023Q4");
    assert_eq!(TimePeriod::Year.time_string(ts).as_str(), "2023");
}

#[test]
fn twelve_month_steps_land_one_year_earlier() {
    let mut ts = nanos(2023, 6, 15);
    for _ in 0..12 {
        ts = TimePeriod::Month.previous_period(ts).unwrap();
    }
    assert_eq!(TimePeriod::Year.time_string(ts).as_str(), "2022");
    assert_eq!(TimePeriod::Month.time_string(ts).as_str(), "062022");
}

#[test]
fn all_time_has_no_previous_period() {
    assert_eq!(TimePeriod::AllTime.previous_period(0), None);
    assert_eq!(TimePeriod::AllTime.previous_period(nanos(2024, 1, 1)), None);
}

#[test]
fn previous_periods_move_strictly_backward() {
    let ts = nanos(2024, 3, 31);
    let w = TimePeriod::Week.previous_period(ts).unwrap();
    assert!(w < ts);
    assert_eq!(TimePeriod::Week.time_string(w).as_str(), "2024W12");
    let m = TimePeriod::Month.previous_period(ts).unwrap();
    // Day clamping: March 31 minus one month is February 29 (leap year).
    assert_eq!(TimePeriod::Month.time_string(m).as_str(), "022024");
    let q = TimePeriod::Quarter.previous_period(ts).unwrap();
    assert_eq!(TimePeriod::Quarter.time_string(q).as_str(), "2023Q4");
}

#[test]
fn previous_period_near_epoch_is_none() {
    // Less than a week after the epoch: no representable previous week.
    assert_eq!(TimePeriod::Week.previous_period(1000), None);
}

#[test]
fn week_shift_is_exactly_seven_days_of_nanoseconds() {
    let ts = nanos(2024, 3, 31);
    assert_eq!(
        TimePeriod::Week.previous_period(ts),
        Some(ts - 604_800_000_000_000)
    );
    // Not representable: less than a week after the epoch.
    assert_eq!(TimePeriod::Week.previous_period(604_799_999_999_999), None);
    assert_eq!(
        TimePeriod::Week.previous_period(604_800_000_000_000),
        Some(0)
    );
}
