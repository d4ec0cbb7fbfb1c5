use verco::key::Key;
use verco::output::Output;
use verco::read_line::ReadLine;
use verco::select_menu::{SelectMenu, SelectMenuAction};

fn numbered_lines(n: usize) -> String {
    let mut s = String::new();
    for i in 0..n {
        s.push_str(&format!("line {}\n", i));
    }
    s
}

#[test]
fn page_down_three_times() {
    let mut out = Output::new();
    out.set(numbered_lines(100));
    assert_eq!(out.line_count(), 100);
    out.on_key(20, Key::Ctrl('d'));
    assert_eq!(out.scroll(), 10);
    out.on_key(20, Key::PageDown);
    out.on_key(20, Key::Ctrl('d'));
    assert_eq!(out.scroll(), 30);
}

#[test]
fn scroll_stays_within_content() {
    let mut out = Output::new();
    out.set(numbered_lines(100));
    out.on_key(20, Key::End);
    assert_eq!(out.scroll(), 80);
    out.on_key(20, Key::Down);
    assert_eq!(out.scroll(), 80);
    out.on_key(20, Key::Home);
    assert_eq!(out.scroll(), 0);
    out.on_key(20, Key::Up);
    assert_eq!(out.scroll(), 0);
    out.on_key(20, Key::Char('j'));
    assert_eq!(out.scroll(), 1);
    out.on_key(20, Key::PageUp);
    assert_eq!(out.scroll(), 0);
    out.set(numbered_lines(5));
    out.on_key(20, Key::Down);
    assert_eq!(out.scroll(), 0);
}

#[test]
fn lines_are_split_like_text_lines() {
    let mut out = Output::new();
    out.set(String::new());
    assert_eq!(out.line_count(), 0);
    out.set("\n".to_string());
    assert_eq!(out.line_count(), 1);
    out.set("a\r\nb\n".to_string());
    assert_eq!(out.line_count(), 2);
    assert_eq!(out.lines_from_scroll(), vec!["a".to_string(), "b".to_string()]);
    out.set("a\rb\n\nc".to_string());
    assert_eq!(out.lines_from_scroll(), vec!["a\rb".to_string(), String::new(), "c".to_string()]);
    assert_eq!(out.text(), "a\rb\n\nc");
}

#[test]
fn lines_from_scroll_start_at_offset() {
    let mut out = Output::new();
    out.set(numbered_lines(30));
    out.on_key(10, Key::Ctrl('d'));
    let lines = out.lines_from_scroll();
    assert_eq!(lines.len(), 25);
    assert_eq!(lines[0], "line 5");
}

#[test]
fn ctrl_w_deletes_words() {
    let mut rl = ReadLine::new();
    for c in "hello world".chars() {
        rl.on_key(Key::Char(c));
    }
    assert_eq!(rl.input(), "hello world");
    rl.on_key(Key::Ctrl('w'));
    assert_eq!(rl.input(), "hello ");
    // a whitespace run is deleted back to the word before it
    rl.on_key(Key::Ctrl('w'));
    assert_eq!(rl.input(), "hello");
    rl.on_key(Key::Ctrl('w'));
    assert_eq!(rl.input(), "");
    rl.on_key(Key::Ctrl('w'));
    assert_eq!(rl.input(), "");
}

#[test]
fn ctrl_w_by_character_class() {
    let mut rl = ReadLine::new();
    for c in "foo--".chars() {
        rl.on_key(Key::Char(c));
    }
    rl.on_key(Key::Ctrl('w'));
    assert_eq!(rl.input(), "foo");
    rl.clear();
    for c in "a.b   ".chars() {
        rl.on_key(Key::Char(c));
    }
    rl.on_key(Key::Ctrl('w'));
    assert_eq!(rl.input(), "a.b");
    rl.clear();
    for c in "über_ok".chars() {
        rl.on_key(Key::Char(c));
    }
    rl.on_key(Key::Ctrl('w'));
    assert_eq!(rl.input(), "");
}

#[test]
fn backspace_removes_one_character() {
    let mut rl = ReadLine::new();
    for c in "héé".chars() {
        rl.on_key(Key::Char(c));
    }
    rl.on_key(Key::Backspace);
    assert_eq!(rl.input(), "hé");
    rl.on_key(Key::Ctrl('h'));
    assert_eq!(rl.input(), "h");
    rl.on_key(Key::Ctrl('u'));
    assert_eq!(rl.input(), "");
    rl.on_key(Key::Backspace);
    assert_eq!(rl.input(), "");
    rl.on_key(Key::Char('x'));
    rl.on_key(Key::Home);
    assert_eq!(rl.input(), "");
}

#[test]
fn select_cursor_is_clamped_and_visible() {
    let mut menu = SelectMenu::new();
    assert_eq!(menu.on_key(10, 3, Key::Down), SelectMenuAction::Nothing);
    assert_eq!(menu.cursor(), 1);
    menu.on_key(10, 3, Key::End);
    assert_eq!(menu.cursor(), 9);
    assert_eq!(menu.scroll(), 7);
    menu.on_key(10, 3, Key::Down);
    assert_eq!(menu.cursor(), 9);
    menu.on_key(10, 3, Key::Home);
    assert_eq!(menu.cursor(), 0);
    assert_eq!(menu.scroll(), 0);
    menu.on_key(10, 4, Key::PageDown);
    assert_eq!(menu.cursor(), 2);
    let mut empty = SelectMenu::new();
    empty.on_key(0, 5, Key::Down);
    assert_eq!(empty.cursor(), 0);
    assert_eq!(empty.on_key(0, 5, Key::Char(' ')), SelectMenuAction::Nothing);
}

#[test]
fn select_toggles() {
    let mut menu = SelectMenu::new();
    menu.on_key(3, 5, Key::Down);
    assert_eq!(menu.on_key(3, 5, Key::Char(' ')), SelectMenuAction::Toggle(1));
    assert_eq!(menu.on_key(3, 5, Key::Char('a')), SelectMenuAction::ToggleAll);
}

#[test]
fn select_cursor_follows_removed_entries() {
    let mut menu = SelectMenu::new();
    menu.set_cursor(3);
    menu.on_remove_entry(5);
    assert_eq!(menu.cursor(), 3);
    menu.on_remove_entry(3);
    assert_eq!(menu.cursor(), 2);
    menu.on_remove_entry(0);
    assert_eq!(menu.cursor(), 1);
    menu.saturate_cursor(1);
    assert_eq!(menu.cursor(), 0);
    menu.on_remove_entry(0);
    assert_eq!(menu.cursor(), 0);
}

#[test]
fn words_of_a_line() {
    let line: Vec<char> = " ab\t c  d ".chars().collect();
    let words = verco::text::split_words(&line);
    let words: Vec<String> = words.iter().map(|w| w.iter().collect()).collect();
    assert_eq!(words, vec!["ab", "c", "d"]);
    assert!(verco::text::split_words(&Vec::new()).is_empty());
}
