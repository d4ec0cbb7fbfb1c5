use verco::key::Key;
use verco::mode::revision_details::{
    prepare_info, sort_by_status, toggle_all, EntryStatus, Mode, Response, RevisionEntry, RevisionInfo,
    SelectableRevisionEntry,
};
use verco::mode::{ModeContext, ModeKind};

fn entry(name: &str, status: EntryStatus) -> RevisionEntry {
    RevisionEntry { name: name.to_string(), status }
}

fn sel(name: &str, selected: bool) -> SelectableRevisionEntry {
    SelectableRevisionEntry { name: name.to_string(), status: EntryStatus::Modified, selected }
}

fn ctx() -> ModeContext {
    ModeContext { viewport_size: (80, 24) }
}

fn names(entries: &[RevisionEntry]) -> Vec<String> {
    entries.iter().map(|e| e.name.clone()).collect()
}

#[test]
fn revision_entries_sorted_by_status() {
    let fetched = RevisionInfo {
        message: "abc123 message".to_string(),
        entries: vec![
            entry("m.rs", EntryStatus::Modified),
            entry("a.rs", EntryStatus::Added),
            entry("d.rs", EntryStatus::Deleted),
        ],
    };
    let info = prepare_info(Ok(fetched.clone()));
    let statuses: Vec<EntryStatus> = info.entries.iter().map(|e| e.status).collect();
    assert_eq!(statuses, vec![EntryStatus::Added, EntryStatus::Deleted, EntryStatus::Modified]);
    assert_eq!(names(&info.entries), vec!["a.rs", "d.rs", "m.rs"]);
    let again = prepare_info(Ok(fetched));
    assert_eq!(names(&again.entries), names(&info.entries));
}

#[test]
fn sort_keeps_order_within_a_status() {
    let entries = vec![
        entry("z", EntryStatus::Modified),
        entry("b", EntryStatus::Added),
        entry("y", EntryStatus::Modified),
        entry("a", EntryStatus::Added),
        entry("u", EntryStatus::Unknown),
    ];
    let sorted = sort_by_status(&entries);
    assert_eq!(names(&sorted), vec!["b", "a", "z", "y", "u"]);
    assert!(sort_by_status(&vec![]).is_empty());
}

#[test]
fn failed_fetch_shows_error_and_no_entries() {
    let info = prepare_info(Err("unknown revision".to_string()));
    assert_eq!(info.message, "unknown revision");
    assert!(info.entries.is_empty());
}

#[test]
fn toggle_all_twice_restores_uniform_selection() {
    let mut entries = vec![sel("a", true), sel("b", true)];
    toggle_all(&mut entries);
    assert!(entries.iter().all(|e| !e.selected));
    toggle_all(&mut entries);
    assert!(entries.iter().all(|e| e.selected));
    let mut entries = vec![sel("a", false), sel("b", false)];
    toggle_all(&mut entries);
    toggle_all(&mut entries);
    assert!(entries.iter().all(|e| !e.selected));
    let mut mixed = vec![sel("a", true), sel("b", false)];
    toggle_all(&mut mixed);
    assert!(mixed.iter().all(|e| e.selected));
    assert_eq!(mixed[1].name, "b");
}

fn waiting_mode() -> Mode {
    let mut mode = Mode::new();
    assert!(mode.on_enter());
    mode
}

fn info(message: &str) -> RevisionInfo {
    RevisionInfo {
        message: message.to_string(),
        entries: vec![entry("a.rs", EntryStatus::Added), entry("b.rs", EntryStatus::Modified)],
    }
}

#[test]
fn entering_twice_spawns_once() {
    let mut mode = waiting_mode();
    assert!(mode.is_waiting_response());
    assert!(!mode.on_enter());
    assert!(mode.is_waiting_response());
}

#[test]
fn details_arrive_and_diff_of_selection_is_requested() {
    let mut mode = waiting_mode();
    mode.on_response(Response::Info(info("first line\nsecond line")));
    assert!(!mode.is_waiting_response());
    assert_eq!(mode.header().0, "revision details");
    let (_, req) = mode.on_key(&ctx(), Key::Char(' '));
    assert!(req.is_none());
    let (status, req) = mode.on_key(&ctx(), Key::Char('d'));
    assert!(!status.pending_input);
    let req = req.expect("diff requested");
    assert_eq!(req.len(), 1);
    assert_eq!(req[0].name, "a.rs");
    assert!(mode.is_waiting_response());
    assert_eq!(mode.header(), ("diff", "", "[arrows]move"));
    mode.on_response(Response::Diff("diff text".to_string()));
    assert!(!mode.is_waiting_response());
}

#[test]
fn toggle_all_key_selects_everything() {
    let mut mode = waiting_mode();
    mode.on_response(Response::Info(info("msg")));
    mode.on_key(&ctx(), Key::Char('a'));
    let (_, req) = mode.on_key(&ctx(), Key::Char('d'));
    assert_eq!(req.expect("diff requested").len(), 2);
}

#[test]
fn stale_responses_are_dropped() {
    let mut mode = Mode::new();
    mode.on_response(Response::Diff("late diff".to_string()));
    assert!(!mode.is_waiting_response());
    mode.on_response(Response::Info(info("late info")));
    let (_, req) = mode.on_key(&ctx(), Key::Char('d'));
    assert!(req.is_none());
}

#[test]
fn waiting_mode_ignores_keys() {
    let mut mode = waiting_mode();
    let (_, req) = mode.on_key(&ctx(), Key::Char('d'));
    assert!(req.is_none());
    assert!(mode.is_waiting_response());
}

#[test]
fn mode_kind_defaults_to_status() {
    assert_eq!(ModeKind::default(), ModeKind::Status);
    let _ = ModeKind::RevisionDetails("abc123".to_string());
}

#[test]
fn status_codes() {
    assert_eq!(EntryStatus::from_code("A "), EntryStatus::Added);
    assert_eq!(EntryStatus::from_code(" M"), EntryStatus::Modified);
    assert_eq!(EntryStatus::from_code("D"), EntryStatus::Deleted);
    assert_eq!(EntryStatus::from_code("R"), EntryStatus::Renamed);
    assert_eq!(EntryStatus::from_code("??"), EntryStatus::Untracked);
    assert_eq!(EntryStatus::from_code("!!"), EntryStatus::Ignored);
    assert_eq!(EntryStatus::from_code("UU"), EntryStatus::Conflicted);
    assert_eq!(EntryStatus::from_code("AA"), EntryStatus::Conflicted);
    assert_eq!(EntryStatus::from_code("  "), EntryStatus::Unknown);
    assert_eq!(EntryStatus::from_code("X"), EntryStatus::Unknown);
    assert_eq!(EntryStatus::Added.color(), verco::ui::Color::Green);
    assert_eq!(EntryStatus::Conflicted.label(), "conflicted");
}

#[test]
fn entered_revision_lists_files_in_status_order() {
    let mut mode = Mode::new();
    assert!(mode.on_enter());
    let fetched = RevisionInfo {
        message: "abc123".to_string(),
        entries: vec![
            entry("m.rs", EntryStatus::Modified),
            entry("a.rs", EntryStatus::Added),
            entry("d.rs", EntryStatus::Deleted),
        ],
    };
    mode.on_response(Response::Info(prepare_info(Ok(fetched))));
    let mut drawer = verco::ui::Drawer::new(Vec::new(), (80, 24));
    mode.draw(&mut drawer);
    let frame = String::from_utf8(drawer.take_buf()).expect("utf-8 frame");
    let a = frame.find("a.rs").expect("a.rs drawn");
    let d = frame.find("d.rs").expect("d.rs drawn");
    let m = frame.find("m.rs").expect("m.rs drawn");
    assert!(a < d && d < m);
}
