use chrono::TimeZone;
use race_of_sloths::kv::PairMap;
use race_of_sloths::kv::StrMap;
use race_of_sloths::ledger::PRRecord;
use race_of_sloths::migration::OldState;
use race_of_sloths::migration::UserData;
use race_of_sloths::migration::migrate;
use race_of_sloths::streak::Streak;
use race_of_sloths::streak::StreakType;
use race_of_sloths::timeperiod::TimePeriod;

fn nanos(y: i32, m: u32, d: u32) -> u64 {
    chrono::Utc
        .with_ymd_and_hms(y, m, d, 12, 0, 0)
        .unwrap()
        .timestamp_nanos_opt()
        .unwrap() as u64
}

fn record(n: u64, author: &str, score: u64, merged_at: u64) -> (String, PRRecord) {
    (
        format!("org/repo/{n}"),
        PRRecord {
            organization: "org".to_string(),
            repo: "repo".to_string(),
            number: n,
            author: author.to_string(),
            created_at: 1,
            score: Some(score),
            merged_at: Some(merged_at),
        },
    )
}

fn old_state(executed: Vec<(String, PRRecord)>, users: Vec<&str>) -> OldState {
    let mut executed_prs = StrMap::new();
    for (id, rec) in executed {
        executed_prs.insert(id, rec);
    }
    let mut sloths = StrMap::new();
    for u in users {
        sloths.insert(
            u.to_string(),
            UserData {
                handle: u.to_string(),
                total_prs_merged: 0,
                total_prs_opened: 0,
                account_id: None,
            },
        );
    }
    OldState {
        sloth: "race.sloth".to_string(),
        sloths,
        sloths_per_month: PairMap::new(),
        organizations: vec!["org".to_string()],
        prs: StrMap::new(),
        executed_prs,
        excluded_prs: vec![],
    }
}

#[test]
fn migration_refolds_every_executed_score_exactly_once() {
    let t = nanos(2024, 2, 10);
    let old = old_state(
        vec![
            record(1, "alice", 3, t),
            record(2, "bob", 5, t),
            record(3, "alice", 4, nanos(2023, 7, 1)),
        ],
        vec!["alice", "bob"],
    );
    let ledger = migrate(old, vec![], nanos(2024, 2, 15)).unwrap();
    let all_time = "all-time".to_string();
    let alice = ledger
        .sloths_per_period
        .get(&"alice".to_string(), &all_time)
        .copied()
        .unwrap();
    assert_eq!(alice.total_score, 7);
    assert_eq!(alice.executed_prs, 2);
    let bob = ledger
        .sloths_per_period
        .get(&"bob".to_string(), &all_time)
        .copied()
        .unwrap();
    assert_eq!(bob.total_score, 5);
    assert_eq!(bob.executed_prs, 1);
    // The records themselves carry over untouched.
    assert_eq!(ledger.executed_prs.len(), 3);
    // Bucketed aggregates land in the merge month, not the migration month.
    let feb = ledger
        .sloths_per_period
        .get(&"alice".to_string(), &"022024".to_string())
        .copied()
        .unwrap();
    assert_eq!(feb.total_score, 3);
}

#[test]
fn migration_recomputes_streaks_from_scratch() {
    let now = nanos(2024, 2, 10);
    // Two executed contributions in consecutive weeks, the newest in the
    // week of the migration.
    let old = old_state(
        vec![
            record(1, "alice", 3, nanos(2024, 2, 3)),
            record(2, "alice", 5, now),
        ],
        vec!["alice"],
    );
    let streaks = vec![Streak::new(
        0,
        TimePeriod::Week,
        vec![StreakType::PRsOpened(1)],
    )];
    let ledger = migrate(old, streaks, now).unwrap();
    let sd = ledger.user_streaks[0].get(&"alice".to_string()).unwrap();
    assert_eq!(sd.amount, 2);
    assert_eq!(sd.latest_time_string, "2024W6");
    // Re-running the same recomputation leaves nothing stale: it is a
    // function of the records alone.
    let old2 = old_state(
        vec![
            record(1, "alice", 3, nanos(2024, 2, 3)),
            record(2, "alice", 5, now),
        ],
        vec!["alice"],
    );
    let streaks2 = vec![Streak::new(
        0,
        TimePeriod::Week,
        vec![StreakType::PRsOpened(1)],
    )];
    let ledger2 = migrate(old2, streaks2, now).unwrap();
    let sd2 = ledger2.user_streaks[0].get(&"alice".to_string()).unwrap();
    assert_eq!(sd2.amount, sd.amount);
    assert_eq!(sd2.latest_time_string, sd.latest_time_string);
}

#[test]
fn migration_streak_breaks_over_a_gap() {
    let now = nanos(2024, 2, 10);
    // The only contribution was three weeks before the migration: the
    // current week's bucket is missing, so the recomputed run is zero.
    let old = old_state(vec![record(1, "alice", 3, nanos(2024, 1, 20))], vec!["alice"]);
    let streaks = vec![Streak::new(
        0,
        TimePeriod::Week,
        vec![StreakType::PRsOpened(1)],
    )];
    let ledger = migrate(old, streaks, now).unwrap();
    let sd = ledger.user_streaks[0].get(&"alice".to_string()).unwrap();
    assert_eq!(sd.amount, 0);
    assert_eq!(sd.latest_time_string, "");
}
