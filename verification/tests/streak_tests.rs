use race_of_sloths::UserPeriodData;
use race_of_sloths::streak::Streak;
use race_of_sloths::streak::StreakType;
use race_of_sloths::streak::StreakUserData;
use race_of_sloths::streak::update_streak;
use race_of_sloths::timeperiod::TimePeriod;

fn data(total: u32, executed: u32, opened: u32, merged: u32) -> UserPeriodData {
    UserPeriodData {
        total_score: total,
        executed_prs: executed,
        prs_opened: opened,
        prs_merged: merged,
    }
}

#[test]
fn criteria_kinds() {
    let d = data(20, 4, 5, 3);
    assert!(StreakType::from_prs_opened(5).is_streak_achieved(&d));
    assert!(!StreakType::from_prs_opened(6).is_streak_achieved(&d));
    assert!(StreakType::from_prs_merged(3).is_streak_achieved(&d));
    assert!(!StreakType::from_prs_merged(4).is_streak_achieved(&d));
    assert!(StreakType::TotalScore(20).is_streak_achieved(&d));
    assert!(!StreakType::TotalScore(21).is_streak_achieved(&d));
    // Average 20 / 4 = 5: strictly greater than 4, not greater than 5.
    assert!(StreakType::AverageScoreGreaterThan(4).is_streak_achieved(&d));
    assert!(!StreakType::AverageScoreGreaterThan(5).is_streak_achieved(&d));
}

#[test]
fn streak_needs_all_criteria() {
    let s = Streak::new(
        0,
        TimePeriod::Week,
        vec![StreakType::PRsOpened(2), StreakType::TotalScore(10)],
    );
    assert!(s.is_active);
    assert!(s.is_streak_achieved(&data(10, 1, 2, 0)));
    assert!(!s.is_streak_achieved(&data(9, 1, 2, 0)));
    assert!(!s.is_streak_achieved(&data(10, 1, 1, 0)));
}

fn sd(amount: u32, latest: &str) -> StreakUserData {
    StreakUserData {
        amount,
        latest_time_string: latest.to_string(),
    }
}

#[test]
fn three_consecutive_buckets_accumulate_three() {
    let b0 = "2024W10".to_string();
    let b1 = "2024W11".to_string();
    let b2 = "2024W12".to_string();
    let p0 = "2024W9".to_string();
    let d0 = sd(0, "");
    let d1 = update_streak(&d0, &b0, &p0, true).unwrap();
    assert_eq!(d1.amount, 1);
    assert_eq!(d1.latest_time_string, b0);
    let d2 = update_streak(&d1, &b1, &b0, true).unwrap();
    assert_eq!(d2.amount, 2);
    let d3 = update_streak(&d2, &b2, &b1, true).unwrap();
    assert_eq!(d3.amount, 3);
    assert_eq!(d3.latest_time_string, b2);
}

#[test]
fn skipping_a_bucket_resets_to_one() {
    let d1 = sd(1, "2024W10");
    // Achieved next in week 12, whose previous bucket is week 11.
    let d2 = update_streak(
        &d1,
        &"2024W12".to_string(),
        &"2024W11".to_string(),
        true,
    )
    .unwrap();
    assert_eq!(d2.amount, 1);
    assert_eq!(d2.latest_time_string, "2024W12");
}

#[test]
fn same_bucket_does_not_double_count() {
    let d1 = sd(2, "2024W11");
    let d2 = update_streak(
        &d1,
        &"2024W11".to_string(),
        &"2024W10".to_string(),
        true,
    )
    .unwrap();
    assert_eq!(d2.amount, 2);
}

#[test]
fn failing_after_an_adjacent_extension_breaks_the_streak() {
    let d1 = sd(3, "2024W11");
    let d2 = update_streak(
        &d1,
        &"2024W12".to_string(),
        &"2024W11".to_string(),
        false,
    )
    .unwrap();
    assert_eq!(d2.amount, 0);
    // Failing with no adjacent extension leaves the record alone.
    let d3 = sd(3, "2024W5");
    let d4 = update_streak(
        &d3,
        &"2024W12".to_string(),
        &"2024W11".to_string(),
        false,
    )
    .unwrap();
    assert_eq!(d4.amount, 3);
}
