use chrono::TimeZone;
use race_of_sloths::commands::BotScored;
use race_of_sloths::commands::BotStarted;
use race_of_sloths::commands::Effect;
use race_of_sloths::commands::PullRequestMerged;
use race_of_sloths::github::AuthorRole;
use race_of_sloths::github::PrMetadata;
use race_of_sloths::github::User;
use race_of_sloths::ledger::Ledger;
use race_of_sloths::ledger::LedgerError;
use race_of_sloths::streak::Streak;
use race_of_sloths::streak::StreakType;
use race_of_sloths::timeperiod::TimePeriod;

fn nanos(y: i32, m: u32, d: u32) -> u64 {
    chrono::Utc
        .with_ymd_and_hms(y, m, d, 12, 0, 0)
        .unwrap()
        .timestamp_nanos_opt()
        .unwrap() as u64
}

fn maintainer(login: &str) -> User {
    User {
        login: login.to_string(),
        contributor_type: AuthorRole::Member,
    }
}

fn contributor(login: &str) -> User {
    User {
        login: login.to_string(),
        contributor_type: AuthorRole::Contributor,
    }
}

fn pr(number: u64, author: &str, merged: Option<u64>) -> PrMetadata {
    PrMetadata::new(
        "org".to_string(),
        "repo".to_string(),
        number,
        User {
            login: author.to_string(),
            contributor_type: AuthorRole::Contributor,
        },
        nanos(2024, 1, 1),
        merged,
        false,
    )
}

fn ledger_with_org() -> Ledger {
    let mut l = Ledger::new();
    l.allow_org("org".to_string());
    l
}

fn start(l: &mut Ledger, p: &PrMetadata) {
    let cmd = BotStarted {
        sender_login: "someone".to_string(),
        pr_metadata: p.clone(),
        timestamp: p.started,
        comment_id: 1,
    };
    cmd.execute(l, &"sloth".to_string()).unwrap();
}

fn score(l: &mut Ledger, p: &PrMetadata, text: &str, sender: User) -> Vec<Effect> {
    let cmd = BotScored {
        sender,
        pr_metadata: p.clone(),
        score: text.to_string(),
        timestamp: 5,
        comment_id: 2,
        notification_id: 3,
    };
    cmd.execute(l).unwrap()
}

#[test]
fn start_creates_a_record_once() {
    let mut l = ledger_with_org();
    let p = pr(1, "alice", None);
    start(&mut l, &p);
    let info = l.check_info(&"org".to_string(), &"repo".to_string(), 1);
    assert!(info.exist && info.allowed && !info.merged && !info.scored && !info.executed);
    // Idempotency: a second Start is a no-op with no effects.
    let cmd = BotStarted {
        sender_login: "someone".to_string(),
        pr_metadata: p.clone(),
        timestamp: 0,
        comment_id: 9,
    };
    let effects = cmd.execute(&mut l, &"sloth".to_string()).unwrap();
    assert!(effects.is_empty());
}

#[test]
fn start_refused_for_unknown_org() {
    let mut l = Ledger::new();
    let p = pr(1, "alice", None);
    let cmd = BotStarted {
        sender_login: "someone".to_string(),
        pr_metadata: p.clone(),
        timestamp: 0,
        comment_id: 1,
    };
    let effects = cmd.execute(&mut l, &"sloth".to_string()).unwrap();
    assert!(effects.is_empty());
    assert!(!l.check_info(&"org".to_string(), &"repo".to_string(), 1).exist);
}

fn reply_text(e: &Effect) -> Option<&str> {
    match e {
        Effect::Reply { text, .. } => Some(text.as_str()),
        _ => None,
    }
}

#[test]
fn score_validation_rejects_out_of_range_and_garbage() {
    let merged_at = nanos(2024, 2, 10);
    for bad in ["0", "11", "abc"] {
        let mut l = ledger_with_org();
        let p = pr(1, "alice", Some(merged_at));
        start(&mut l, &p);
        let effects = score(&mut l, &p, bad, maintainer("bob"));
        assert_eq!(effects.len(), 2);
        assert_eq!(
            reply_text(&effects[0]),
            Some("Score should be between 1 and 10")
        );
        assert!(matches!(effects[1], Effect::MarkRead { notification_id: 3 }));
        assert!(!l.check_info(&"org".to_string(), &"repo".to_string(), 1).scored);
    }
}

#[test]
fn score_rejected_for_author_and_non_maintainer() {
    let merged_at = nanos(2024, 2, 10);
    for sender in [contributor("bob"), maintainer("alice")] {
        let mut l = ledger_with_org();
        let p = pr(1, "alice", Some(merged_at));
        start(&mut l, &p);
        let effects = score(&mut l, &p, "7", sender);
        assert_eq!(effects.len(), 2);
        assert_eq!(
            reply_text(&effects[0]),
            Some("Only maintainers can score PRs, and you can't score your own PRs.")
        );
    }
}

#[test]
fn eligible_score_succeeds_exactly_once() {
    let merged_at = nanos(2024, 2, 10);
    let mut l = ledger_with_org();
    let p = pr(1, "alice", Some(merged_at));
    start(&mut l, &p);
    // Merge first, so the later score completes the executed transition.
    let merged = PullRequestMerged {
        pr_metadata: p.clone(),
        timestamp: merged_at,
    };
    merged.execute(&mut l).unwrap();
    let effects = score(&mut l, &p, "7", maintainer("bob"));
    assert_eq!(effects.len(), 3);
    assert_eq!(
        reply_text(&effects[0]),
        Some("Thanks for submitting your score for the Sloth race.")
    );
    let info = l.check_info(&"org".to_string(), &"repo".to_string(), 1);
    assert!(info.executed && info.merged && info.scored);
    // Re-executing Score on an executed contribution: no write, only the
    // read mark.
    let again = score(&mut l, &p, "7", maintainer("bob"));
    assert_eq!(again.len(), 1);
    assert!(matches!(again[0], Effect::MarkRead { .. }));
}

#[test]
fn executed_transition_folds_into_all_buckets() {
    let merged_at = nanos(2024, 2, 10);
    let mut l = ledger_with_org();
    let p = pr(1, "alice", Some(merged_at));
    start(&mut l, &p);
    let merged = PullRequestMerged {
        pr_metadata: p.clone(),
        timestamp: merged_at,
    };
    merged.execute(&mut l).unwrap();
    score(&mut l, &p, "7", maintainer("bob"));
    let alice = "alice".to_string();
    for key in ["all-time", "2024", "2024Q1", "022024", "2024W6"] {
        let bucket = l
            .sloths_per_period
            .get(&alice, &key.to_string())
            .copied()
            .unwrap();
        assert_eq!(bucket.total_score, 7, "bucket {key}");
        assert_eq!(bucket.executed_prs, 1);
        assert_eq!(bucket.prs_opened, 1);
        assert_eq!(bucket.prs_merged, 1);
    }
    // Nothing is aggregated before both score and merge are in.
    assert!(l.prs.get(&p.full_id).is_none());
    assert!(l.executed_prs.get(&p.full_id).is_some());
}

#[test]
fn streak_extends_on_executed_transition() {
    let mut l = ledger_with_org();
    l.add_streak(Streak::new(
        0,
        TimePeriod::Week,
        vec![StreakType::PRsOpened(1)],
    ));
    let merged_at = nanos(2024, 2, 10);
    let p = pr(1, "alice", Some(merged_at));
    start(&mut l, &p);
    PullRequestMerged {
        pr_metadata: p.clone(),
        timestamp: merged_at,
    }
    .execute(&mut l)
    .unwrap();
    score(&mut l, &p, "5", maintainer("bob"));
    let sd = l.user_streaks[0].get(&"alice".to_string()).unwrap();
    assert_eq!(sd.amount, 1);
    assert_eq!(sd.latest_time_string, "2024W6");
    // A second executed contribution in the very next week extends it.
    let merged_at2 = nanos(2024, 2, 17);
    let p2 = pr(2, "alice", Some(merged_at2));
    start(&mut l, &p2);
    PullRequestMerged {
        pr_metadata: p2.clone(),
        timestamp: merged_at2,
    }
    .execute(&mut l)
    .unwrap();
    score(&mut l, &p2, "4", maintainer("bob"));
    let sd = l.user_streaks[0].get(&"alice".to_string()).unwrap();
    assert_eq!(sd.amount, 2);
    assert_eq!(sd.latest_time_string, "2024W7");
}

#[test]
fn merge_without_snapshot_timestamp_is_refused() {
    let mut l = ledger_with_org();
    let p = pr(1, "alice", None);
    start(&mut l, &p);
    let merged = PullRequestMerged {
        pr_metadata: p.clone(),
        timestamp: 0,
    };
    assert_eq!(merged.execute(&mut l), Err(LedgerError::NotMerged));
}

#[test]
fn unmerged_listing_and_pagination() {
    let mut l = ledger_with_org();
    let merged_at = nanos(2024, 2, 10);
    for n in 1..=5u64 {
        let p = pr(n, "alice", None);
        start(&mut l, &p);
    }
    // Merge one of them; it leaves the unmerged view.
    PullRequestMerged {
        pr_metadata: pr(3, "alice", Some(merged_at)),
        timestamp: merged_at,
    }
    .execute(&mut l)
    .unwrap();
    let all = l.unmerged_prs_all();
    let numbers: Vec<u64> = all.iter().map(|d| d.number).collect();
    assert_eq!(numbers, vec![1, 2, 4, 5]);
    let page = l.unmerged_prs(1, 2);
    let numbers: Vec<u64> = page.iter().map(|d| d.number).collect();
    assert_eq!(numbers, vec![4, 5]);
}

#[test]
fn stale_flags_and_removes_the_open_record() {
    let mut l = ledger_with_org();
    let p = pr(1, "alice", None);
    start(&mut l, &p);
    let info = l.check_info(&"org".to_string(), &"repo".to_string(), 1);
    let stale = race_of_sloths::commands::PullRequestStale {};
    let (notified, effects) = stale.execute(&p, &mut l, info);
    assert!(notified);
    assert_eq!(effects.len(), 1);
    assert!(l.excluded_prs.iter().any(|id| id == &p.full_id));
    assert!(!l.check_info(&"org".to_string(), &"repo".to_string(), 1).exist);
}

#[test]
fn pause_and_unpause() {
    let mut l = ledger_with_org();
    let p = pr(1, "alice", None);
    let paused = race_of_sloths::commands::BotPaused {
        pr_metadata: p.clone(),
        sender: contributor("carol"),
        timestamp: 0,
        comment_id: 4,
    };
    paused.execute(&mut l).unwrap();
    let info = l.check_info(&"org".to_string(), &"repo".to_string(), 1);
    assert!(!info.allowed && !info.allowed_repo);
    // A non-maintainer cannot unpause.
    let unpause = race_of_sloths::commands::BotUnpaused {
        pr_metadata: p.clone(),
        sender: contributor("carol"),
        timestamp: 0,
        comment_id: 5,
    };
    assert!(unpause.execute(&mut l).unwrap().is_empty());
    // A maintainer can.
    let unpause = race_of_sloths::commands::BotUnpaused {
        pr_metadata: p.clone(),
        sender: maintainer("bob"),
        timestamp: 0,
        comment_id: 6,
    };
    let effects = unpause.execute(&mut l).unwrap();
    assert_eq!(
        reply_text(&effects[0]),
        Some("We've unpaused this repository. Please, start us to include us in the given PR.")
    );
    assert!(l.check_info(&"org".to_string(), &"repo".to_string(), 1).allowed);
    // Unpausing an unpaused repository says so and changes nothing.
    let again = race_of_sloths::commands::BotUnpaused {
        pr_metadata: p.clone(),
        sender: maintainer("bob"),
        timestamp: 0,
        comment_id: 7,
    };
    let effects = again.execute(&mut l).unwrap();
    assert_eq!(reply_text(&effects[0]), Some("Already unpaused."));
}

#[test]
fn direct_ledger_calls_report_their_refusals() {
    let mut l = ledger_with_org();
    let p = pr(1, "alice", None);
    start(&mut l, &p);
    // A second record for the same contribution.
    assert_eq!(
        l.sloth_called(
            "org".to_string(),
            "repo".to_string(),
            1,
            "alice".to_string(),
            0,
        ),
        Err(LedgerError::AlreadyExists)
    );
    // An organization that is not allowed.
    assert_eq!(
        l.sloth_called(
            "elsewhere".to_string(),
            "repo".to_string(),
            2,
            "alice".to_string(),
            0,
        ),
        Err(LedgerError::OrgNotAllowed)
    );
    // A contribution the ledger has never seen.
    assert_eq!(
        l.sloth_scored(&"org/repo/99".to_string(), 5),
        Err(LedgerError::UnknownContribution)
    );
    assert_eq!(
        l.sloth_merged(&"org/repo/99".to_string(), 5),
        Err(LedgerError::UnknownContribution)
    );
    // A score too large for the aggregates refuses without changing state.
    let merged_at = nanos(2024, 2, 10);
    l.sloth_merged(&p.full_id, merged_at).unwrap();
    assert_eq!(
        l.sloth_scored(&p.full_id, u64::from(u32::MAX) + 1),
        Err(LedgerError::CounterOverflow)
    );
    let info = l.check_info(&"org".to_string(), &"repo".to_string(), 1);
    assert!(!info.scored && !info.executed);
    // After execution, further transitions are refused.
    l.sloth_scored(&p.full_id, 5).unwrap();
    assert_eq!(
        l.sloth_scored(&p.full_id, 5),
        Err(LedgerError::AlreadyExecuted)
    );
    assert_eq!(
        l.sloth_merged(&p.full_id, merged_at),
        Err(LedgerError::AlreadyExecuted)
    );
}
