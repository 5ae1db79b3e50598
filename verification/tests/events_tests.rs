use race_of_sloths::commands::Command;
use race_of_sloths::events::Event;
use race_of_sloths::events::NotificationThread;
use race_of_sloths::events::extract_events;
use race_of_sloths::events::thread_events;
use race_of_sloths::github::AuthorRole;
use race_of_sloths::github::Comment;
use race_of_sloths::github::Notification;
use race_of_sloths::github::NotificationReason;
use race_of_sloths::github::PrMetadata;
use race_of_sloths::github::User;

fn user(login: &str) -> User {
    User {
        login: login.to_string(),
        contributor_type: AuthorRole::Member,
    }
}

fn comment(id: u64, login: &str, body: &str) -> Comment {
    Comment {
        id,
        user: user(login),
        body: Some(body.to_string()),
        body_html: None,
        body_text: None,
        created_at: id,
    }
}

fn meta(merged: Option<u64>) -> PrMetadata {
    PrMetadata::new(
        "org".to_string(),
        "repo".to_string(),
        7,
        user("alice"),
        1,
        merged,
        false,
    )
}

fn mention(comments: Vec<Comment>) -> NotificationThread {
    NotificationThread {
        notification: Notification {
            id: 10,
            updated_at: 100,
            is_pull_request: true,
            reason: NotificationReason::Mention,
        },
        pr: Some(meta(None)),
        comments,
    }
}

#[test]
fn bot_reply_as_newest_comment_yields_no_events() {
    let thread = mention(vec![
        comment(1, "alice", "@sloth include"),
        comment(2, "sloth", "welcome to the race"),
    ]);
    let events = thread_events(&"sloth".to_string(), &thread);
    assert!(events.is_empty());
}

#[test]
fn comments_after_the_bot_reply_are_processed_newest_first() {
    let thread = mention(vec![
        comment(1, "alice", "@sloth include"),
        comment(2, "sloth", "welcome"),
        comment(3, "bob", "@sloth score 8"),
        comment(4, "carol", "@sloth pause"),
    ]);
    let events = thread_events(&"sloth".to_string(), &thread);
    assert_eq!(events.len(), 2);
    match &events[0] {
        Event::Command(Command::Pause(p)) => {
            assert_eq!(p.sender.login, "carol");
            assert_eq!(p.comment_id, 4);
        }
        other => panic!("unexpected first event: {other:?}"),
    }
    match &events[1] {
        Event::Command(Command::Score(s)) => {
            assert_eq!(s.sender.login, "bob");
            assert_eq!(s.score, "8");
        }
        other => panic!("unexpected second event: {other:?}"),
    }
}

#[test]
fn score_text_is_the_rest_of_the_line_trimmed() {
    let thread = mention(vec![comment(
        1,
        "bob",
        "great work\n@sloth score   9  \nthanks a lot",
    )]);
    let events = thread_events(&"sloth".to_string(), &thread);
    assert_eq!(events.len(), 1);
    match &events[0] {
        Event::Command(Command::Score(s)) => assert_eq!(s.score, "9"),
        other => panic!("unexpected event: {other:?}"),
    }
}

#[test]
fn body_fallback_chain_is_used() {
    let c = Comment {
        id: 1,
        user: user("bob"),
        body: None,
        body_html: Some("@sloth unpause".to_string()),
        body_text: None,
        created_at: 1,
    };
    let thread = mention(vec![c]);
    let events = thread_events(&"sloth".to_string(), &thread);
    assert_eq!(events.len(), 1);
    assert!(matches!(
        events[0],
        Event::Command(Command::Unpause(_))
    ));
}

#[test]
fn state_change_with_merge_timestamp_synthesizes_a_merge_event() {
    let thread = NotificationThread {
        notification: Notification {
            id: 11,
            updated_at: 555,
            is_pull_request: true,
            reason: NotificationReason::StateChange,
        },
        pr: Some(meta(Some(444))),
        comments: vec![],
    };
    let events = thread_events(&"sloth".to_string(), &thread);
    assert_eq!(events.len(), 1);
    match &events[0] {
        Event::Merged(m) => {
            assert_eq!(m.timestamp, 555);
            assert_eq!(m.pr_metadata.full_id, "org/repo/7");
        }
        other => panic!("unexpected event: {other:?}"),
    }
}

#[test]
fn irrelevant_notifications_are_discarded_but_still_advance_the_cursor() {
    let other = NotificationThread {
        notification: Notification {
            id: 12,
            updated_at: 900,
            is_pull_request: false,
            reason: NotificationReason::Other,
        },
        pr: None,
        comments: vec![],
    };
    let joining = mention(vec![comment(1, "alice", "@sloth include")]);
    let (events, new_since) = extract_events(&"sloth".to_string(), 50, &vec![other, joining]);
    assert_eq!(events.len(), 1);
    assert!(matches!(events[0], Event::Command(Command::Start(_))));
    assert_eq!(new_since, 900);
}

#[test]
fn cursor_never_moves_backward() {
    let (_, new_since) = extract_events(&"sloth".to_string(), 5000, &vec![mention(vec![])]);
    assert_eq!(new_since, 5000);
}
