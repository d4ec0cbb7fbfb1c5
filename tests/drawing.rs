use verco::help::help_text;
use verco::key::Key;
use verco::mode::revision_details::{EntryStatus, Mode, Response, RevisionEntry, RevisionInfo, SelectableRevisionEntry};
use verco::select_menu::SelectMenu;
use verco::output::Output;
use verco::read_line::ReadLine;
use verco::ui::{Color, Drawer, HeaderInfo};

fn text(bytes: Vec<u8>) -> String {
    String::from_utf8(bytes).expect("utf-8 frame")
}

#[test]
fn new_drawer_reuses_buffer_empty() {
    let drawer = Drawer::new(vec![1, 2, 3], (80, 24));
    assert_eq!(drawer.size(), (80, 24));
    assert!(drawer.take_buf().is_empty());
}

#[test]
fn next_line_clears_and_moves_down() {
    let mut drawer = Drawer::new(Vec::new(), (80, 24));
    drawer.str("ab");
    drawer.next_line();
    assert_eq!(text(drawer.take_buf()), "ab\x1b[K\x1b[1E");
}

#[test]
fn output_wraps_long_lines_and_expands_tabs() {
    let mut out = Output::new();
    out.set("abcde\n\tx\nz".to_string());
    let mut drawer = Drawer::new(Vec::new(), (4, 10));
    let rows = drawer.output(&out);
    assert_eq!(rows, 5);
    assert_eq!(
        text(drawer.take_buf()),
        "abcde\x1b[K\x1b[1E    x\x1b[K\x1b[1Ez\x1b[K\x1b[1E"
    );
}

#[test]
fn output_stops_when_view_is_full() {
    let mut out = Output::new();
    out.set("1\n2\n3\n4\n".to_string());
    let mut drawer = Drawer::new(Vec::new(), (10, 2));
    assert_eq!(drawer.output(&out), 2);
    assert_eq!(text(drawer.take_buf()), "1\x1b[K\x1b[1E2\x1b[K\x1b[1E");
}

#[test]
fn output_encodes_non_ascii() {
    let mut out = Output::new();
    out.set("é".to_string());
    let mut drawer = Drawer::new(Vec::new(), (10, 5));
    assert_eq!(drawer.output(&out), 1);
    assert_eq!(text(drawer.take_buf()), "é\x1b[K\x1b[1E");
}

#[test]
fn header_shows_spinner_and_name() {
    let mut drawer = Drawer::new(Vec::new(), (80, 24));
    drawer.header(HeaderInfo { name: "status", waiting_response: true }, 5);
    let frame = text(drawer.take_buf());
    assert!(frame.starts_with("\x1b[1;1H"));
    assert!(frame.contains(" \\ "));
    assert!(frame.contains(" status "));
    assert!(frame.ends_with("\x1b[K\x1b[1E\x1b[0m"));
    assert!(frame.contains("\x1b[48;5;3m") || frame.contains("\x1b[m"));
    let mut drawer = Drawer::new(Vec::new(), (80, 24));
    drawer.header(HeaderInfo { name: "log", waiting_response: false }, 1);
    assert!(text(drawer.take_buf()).contains("   "));
}

#[test]
fn readline_and_clear_to_bottom() {
    let mut rl = ReadLine::new();
    rl.on_key(Key::Char('h'));
    rl.on_key(Key::Char('i'));
    let mut drawer = Drawer::new(Vec::new(), (80, 24));
    drawer.readline(&rl);
    assert!(text(drawer.take_buf()).contains("hi"));
    let mut drawer = Drawer::new(Vec::new(), (80, 24));
    drawer.clear_to_bottom();
    assert!(text(drawer.take_buf()).ends_with("\x1b[J"));
}

#[test]
fn key_chord_is_echoed() {
    let mut drawer = Drawer::new(Vec::new(), (80, 24));
    drawer.key_chord(&['L']);
    let frame = text(drawer.take_buf());
    assert!(frame.starts_with("\x1b[24;80H\x1b[2K"));
    assert!(frame.contains('L'));
}

#[test]
fn color_escapes() {
    assert_eq!(Color::White.escape(), "\x1b[38;5;15m");
    assert_eq!(Color::Red.escape(), "\x1b[38;5;1m");
    assert_eq!(Color::Yellow.escape(), "\x1b[38;5;3m");
}

#[test]
fn mode_draws_summary_and_entries() {
    let mut mode = Mode::new();
    mode.on_enter();
    mode.on_response(Response::Info(RevisionInfo {
        message: "subject line\nbody".to_string(),
        entries: vec![RevisionEntry { name: "src/lib.rs".to_string(), status: EntryStatus::Modified }],
    }));
    let mut drawer = Drawer::new(Vec::new(), (80, 24));
    mode.draw(&mut drawer);
    let frame = text(drawer.take_buf());
    assert!(frame.starts_with("subject line\x1b[K\x1b[1E\x1b[K\x1b[1E"));
    assert!(!frame.contains("body"));
    assert!(frame.contains("src/lib.rs"));
    assert!(frame.contains("modified"));
}

#[test]
fn help_lists_every_shortcut() {
    let help = help_text("verco 1.0", Some("git 2.40"));
    assert!(help.starts_with("verco 1.0\x1b[2Egit 2.40\x1b[2Epress a key and peform an action"));
    assert!(help.contains("LC"));
    assert!(help.contains("log count"));
    assert!(help.contains("custom action"));
    let bare = help_text("verco", None);
    assert!(bare.starts_with("verco\x1b[2Epress"));
}

#[test]
fn line_as_wide_as_view_takes_one_row() {
    let mut out = Output::new();
    out.set("abcd\nabcde\n".to_string());
    let mut drawer = Drawer::new(Vec::new(), (4, 10));
    assert_eq!(drawer.output(&out), 3);
}

#[test]
fn header_title_is_clipped_to_width() {
    let mut drawer = Drawer::new(Vec::new(), (8, 24));
    drawer.header(HeaderInfo { name: "status", waiting_response: false }, 0);
    let frame = text(drawer.take_buf());
    assert!(frame.contains(" sta "));
    assert!(!frame.contains("stat"));
}

#[test]
fn select_menu_stops_when_rows_are_filled() {
    let entries: Vec<SelectableRevisionEntry> = ["one", "two", "three"]
        .iter()
        .map(|n| SelectableRevisionEntry { name: n.to_string(), status: EntryStatus::Added, selected: false })
        .collect();
    let menu = SelectMenu::new();
    let mut drawer = Drawer::new(Vec::new(), (80, 4));
    drawer.select_menu(&menu, 1, false, &entries);
    let frame = text(drawer.take_buf());
    assert!(frame.contains("one"));
    assert!(frame.contains("two"));
    assert!(!frame.contains("three"));
    assert!(frame.contains(Color::Green.escape()));
}
