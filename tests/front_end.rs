use verco::action::{ActionKind, ActionResult};
use verco::chord::CustomAction;
use verco::input::{accept_input, parse_count, parse_decimal};
use verco::key::Key;
use verco::mode::revision_details::{EntryStatus, RevisionEntry};
use verco::session::{Command, CustomStep, HeaderKind, Tui};
use verco::target::parse_target;

fn chars(s: &str) -> Vec<char> {
    s.chars().collect()
}

#[test]
fn chord_starts_action_and_remembers_previous() {
    let mut tui = Tui::new((80, 24));
    assert_eq!(tui.on_key(Key::Char('L')), Command::ShowChord);
    assert_eq!(tui.key_chord(), &['L']);
    assert_eq!(tui.on_key(Key::Char('C')), Command::Start(ActionKind::LogCount));
    assert_eq!(tui.current_action_kind(), ActionKind::LogCount);
    assert_eq!(tui.previous_action_kind(), ActionKind::Help);
    assert!(tui.key_chord().is_empty());
}

#[test]
fn esc_clears_chord_then_quits() {
    let mut tui = Tui::new((80, 24));
    tui.on_key(Key::Char('b'));
    assert_eq!(tui.on_key(Key::Esc), Command::ShowChord);
    assert_eq!(tui.on_key(Key::Ctrl('c')), Command::Quit);
    assert_eq!(tui.on_key(Key::Char('q')), Command::Quit);
}

#[test]
fn navigation_scrolls_output() {
    let mut tui = Tui::new((80, 12));
    let mut text = String::new();
    for i in 0..50 {
        text.push_str(&format!("{}\n", i));
    }
    tui.show(ActionResult::from_ok(text));
    assert_eq!(tui.on_key(Key::Ctrl('d')), Command::Redraw);
    assert_eq!(tui.output().scroll(), 5);
    assert_eq!(tui.on_key(Key::Char('j')), Command::Redraw);
    assert_eq!(tui.output().scroll(), 6);
}

#[test]
fn runs_are_single_flight() {
    let mut tui = Tui::new((80, 24));
    assert_eq!(tui.on_key(Key::Char('s')), Command::Start(ActionKind::Status));
    assert!(tui.start_run());
    assert_eq!(tui.header_kind(), HeaderKind::Waiting);
    assert!(!tui.start_run());
    assert!(tui.complete(ActionKind::Status, ActionResult::from_ok("clean".to_string())));
    assert_eq!(tui.output().text(), "clean");
    assert_eq!(tui.header_kind(), HeaderKind::Success);
    assert!(!tui.complete(ActionKind::Fetch, ActionResult::from_err("offline".to_string())));
    assert_eq!(tui.output().text(), "clean");
    assert!(!tui.cached_result(ActionKind::Fetch).success);
}

#[test]
fn cancelled_prompt_returns_to_previous_result() {
    let mut tui = Tui::new((80, 24));
    tui.show(ActionResult::from_ok("help text".to_string()));
    tui.on_key(Key::Char('c'));
    assert_eq!(tui.on_key(Key::Char('c')), Command::Start(ActionKind::CommitAll));
    tui.show_previous_action_result();
    assert_eq!(tui.current_action_kind(), ActionKind::Help);
    assert_eq!(tui.output().text(), "help text");
}

#[test]
fn target_comes_from_previous_log() {
    let mut tui = Tui::new((80, 24));
    tui.on_key(Key::Char('l'));
    assert!(tui.start_run());
    tui.complete(ActionKind::Log, ActionResult::from_ok("* 1a2b3c4 first\n* 9f8e7d6 second\n".to_string()));
    tui.on_key(Key::Char('u'));
    assert_eq!(tui.previous_target(), Some("1a2b3c4".to_string()));
    tui.on_key(Key::Char('m'));
    assert_eq!(tui.previous_target(), None);
}

#[test]
fn targets_by_kind() {
    assert_eq!(parse_target(ActionKind::Log, &chars("| * abc123 msg")), Some(chars("abc123")));
    assert_eq!(parse_target(ActionKind::Log, &chars("no hex here")), None);
    assert_eq!(parse_target(ActionKind::ListBranches, &chars("* main")), Some(chars("main")));
    assert_eq!(parse_target(ActionKind::ListBranches, &chars("  feature\t")), Some(chars("feature")));
    assert_eq!(parse_target(ActionKind::Status, &chars("M file")), None);
}

#[test]
fn log_count_parsing() {
    assert_eq!(parse_count(" 42 "), Some(42));
    assert_eq!(parse_count("+7"), Some(7));
    assert_eq!(parse_count("x"), None);
    assert_eq!(parse_count(""), None);
    assert_eq!(parse_count("+"), None);
    assert_eq!(parse_count("4 2"), None);
    assert_eq!(parse_count("99999999999999999999999999"), None);
    assert_eq!(parse_decimal(" 1"), None);
    assert_eq!(parse_decimal("0012"), Some(12));
}

#[test]
fn parse_failure_and_empty_selection_are_reported() {
    let mut tui = Tui::new((80, 24));
    tui.show_count_error("abc");
    assert_eq!(tui.output().text(), "could not parse a number from abc");
    assert_eq!(tui.header_kind(), HeaderKind::Failure);
    tui.show_empty_entries();
    assert_eq!(tui.output().text(), "nothing to select");
}

#[test]
fn empty_prompt_answer_cancels() {
    assert_eq!(accept_input(String::new()), None);
    assert_eq!(accept_input("msg".to_string()), Some("msg".to_string()));
}

#[test]
fn custom_action_keys() {
    let actions = vec![
        CustomAction { shortcut: "ab".to_string(), command: "make".to_string(), args: vec![] },
        CustomAction { shortcut: "c".to_string(), command: "cargo".to_string(), args: vec!["build".to_string()] },
    ];
    let mut tui = Tui::new((80, 24));
    tui.on_key(Key::Char('x'));
    assert_eq!(tui.on_custom_key(&actions, Key::Char('a')), CustomStep::Wait);
    assert_eq!(tui.on_custom_key(&actions, Key::Char('b')), CustomStep::Run(0));
    assert_eq!(tui.on_custom_key(&actions, Key::Char('z')), CustomStep::NoMatch);
    assert_eq!(tui.on_custom_key(&actions, Key::Char('c')), CustomStep::Run(1));
    assert_eq!(tui.on_custom_key(&actions, Key::Esc), CustomStep::Cancelled);
    assert_eq!(tui.current_action_kind(), ActionKind::Help);
}

#[test]
fn resize_keeps_state() {
    let mut tui = Tui::new((80, 24));
    tui.on_resize((100, 40));
    assert_eq!(tui.viewport_size(), (100, 40));
}

#[test]
fn prompt_and_selection_outcomes() {
    let mut tui = Tui::new((80, 24));
    tui.show(ActionResult::from_ok("help text".to_string()));
    tui.on_key(Key::Char('c'));
    tui.on_key(Key::Char('s'));
    assert_eq!(tui.current_action_kind(), ActionKind::CommitSelected);
    assert!(tui.offer_selection(Ok(vec![])).is_none());
    assert_eq!(tui.output().text(), "nothing to select");
    assert_eq!(tui.header_kind(), HeaderKind::Failure);
    assert_eq!(tui.current_action_kind(), ActionKind::CommitSelected);
    assert!(tui.offer_selection(Err("not a repository".to_string())).is_none());
    assert_eq!(tui.output().text(), "not a repository");
    let files = vec![RevisionEntry { name: "a".to_string(), status: EntryStatus::Added }];
    let offered = tui.offer_selection(Ok(files)).expect("offered");
    assert_eq!(offered.len(), 1);
    assert_eq!(tui.answered(Some("msg".to_string())), Some("msg".to_string()));
    assert!(tui.selected(None).is_none());
    assert_eq!(tui.current_action_kind(), ActionKind::Help);
    assert_eq!(tui.output().text(), "help text");
}

#[test]
fn count_answers() {
    let mut tui = Tui::new((80, 24));
    tui.on_key(Key::Char('L'));
    tui.on_key(Key::Char('C'));
    assert_eq!(tui.count_answer("\u{3000}12\u{a0}"), Some(12));
    assert_eq!(tui.count_answer("many"), None);
    assert_eq!(tui.output().text(), "could not parse a number from many");
    assert_eq!(tui.current_action_kind(), ActionKind::LogCount);
    assert_eq!(tui.header_kind(), HeaderKind::Failure);
}

#[test]
fn custom_action_listing() {
    let mut tui = Tui::new((80, 24));
    tui.show_custom_actions(&[]);
    assert!(tui.output().text().starts_with("no commands available"));
    let actions = vec![CustomAction {
        shortcut: "b".to_string(),
        command: "cargo".to_string(),
        args: vec!["build".to_string(), "-q".to_string()],
    }];
    tui.show_custom_actions(&actions);
    assert_eq!(tui.output().text(), "b\tcargo build -q\n");
}
