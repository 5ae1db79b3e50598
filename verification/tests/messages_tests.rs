use race_of_sloths::messages::MessageLoader;
use race_of_sloths::messages::Messages;
use race_of_sloths::messages::MsgCategory;

fn pairs(ps: &[(&str, &str)]) -> Vec<(String, String)> {
    ps.iter()
        .map(|(k, v)| (k.to_string(), v.to_string()))
        .collect()
}

#[test]
fn format_substitutes_known_variables() {
    let m = Messages::new(
        vec!["Hello {name}, see {link}!".to_string()],
        vec!["name".to_string(), "link".to_string()],
    );
    let out = m
        .format(&pairs(&[("name", "World"), ("link", "here")]))
        .unwrap();
    assert_eq!(out, "Hello World, see here!");
}

#[test]
fn format_leaves_unbound_variables_in_place() {
    let m = Messages::new(
        vec!["Hello {name}!".to_string()],
        vec!["name".to_string()],
    );
    let out = m.format(&pairs(&[("other", "x")])).unwrap();
    assert_eq!(out, "Hello {name}!");
}

#[test]
fn format_of_an_empty_set_is_none() {
    let m = Messages::new(vec![], vec![]);
    assert!(m.format(&pairs(&[])).is_none());
}

#[test]
fn format_picks_one_of_the_templates() {
    let m = Messages::new(
        vec!["a".to_string(), "b".to_string()],
        vec![],
    );
    let out = m.format(&pairs(&[])).unwrap();
    assert!(out == "a" || out == "b");
}

#[test]
fn partial_format_bakes_values_and_drops_variables() {
    let mut m = Messages::new(
        vec!["{link} and {name}".to_string()],
        vec!["link".to_string(), "name".to_string()],
    );
    m.partial_format(&pairs(&[("link", "L")]));
    assert_eq!(m.message[0], "L and {name}");
    assert_eq!(m.variables, vec!["name".to_string()]);
}

fn msgs(text: &str) -> Messages {
    Messages::new(vec![text.to_string()], vec!["link".to_string(), "bot_name".to_string()])
}

fn loader() -> MessageLoader {
    MessageLoader {
        link: "https://race.example".to_string(),
        leaderboard_link: "https://race.example/board".to_string(),
        form: "https://race.example/form".to_string(),
        picture_api_link: "https://race.example/pic".to_string(),
        include_basic_messages: msgs("Welcome, see {link} (by {bot_name})"),
        correct_nonzero_scoring_messages: msgs("scored"),
        correct_zero_scoring_messages: msgs("zero"),
        correctable_scoring_messages: msgs("correctable"),
        exclude_messages: msgs("excluded"),
        pause_messages: msgs("paused"),
        unpause_messages: msgs("unpaused"),
        merge_without_score_messages: msgs("merged without score"),
        final_messages: msgs("final"),
        stale_messages: msgs("stale"),
        error_unknown_command_messages: msgs("unknown"),
        error_rights_violation_messages: msgs("rights"),
        error_late_include_messages: msgs("late include"),
        error_late_scoring_messages: msgs("late scoring"),
        error_pause_paused_messages: msgs("already paused"),
        error_unpause_unpaused_messages: msgs("already unpaused"),
        error_paused_messages: msgs("is paused"),
        error_selfscore_messages: msgs("self score"),
        error_org_not_in_allowed_list_messages: msgs("org not allowed"),
    }
}

#[test]
fn postprocess_bakes_links_and_bot_name_in() {
    let mut l = loader();
    l.postprocess_messages_with_link(&"sloth".to_string());
    assert_eq!(
        l.include_basic_messages.message[0],
        "Welcome, see https://race.example (by sloth)"
    );
    assert!(l.include_basic_messages.variables.is_empty());
}

#[test]
fn get_message_returns_the_right_category() {
    let l = loader();
    assert_eq!(
        l.get_message(MsgCategory::StaleMessage).message[0],
        "stale"
    );
    assert_eq!(
        l.get_message(MsgCategory::ErrorSelfScore).message[0],
        "self score"
    );
    assert_eq!(
        l.get_message(MsgCategory::PauseMessage).message[0],
        "paused"
    );
}
