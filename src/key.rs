use vstd::prelude::*;

verus! {

/// A key press, as the front end sees it after decoding terminal input.
#[derive(Clone, Copy, Debug, PartialEq, Eq, Structural)]
pub enum Key {
    Unknown,
    Backspace,
    Enter,
    Left,
    Right,
    Up,
    Down,
    Home,
    End,
    PageUp,
    PageDown,
    Tab,
    Delete,
    Esc,
    Char(char),
    Ctrl(char),
}

/// How a navigation key moves a position in a scrollable list.
#[derive(Clone, Copy, Debug, PartialEq, Eq, Structural)]
pub enum Navigation {
    Stay,
    Forward,
    Back,
    First,
    Last,
    HalfPageForward,
    HalfPageBack,
}

/// The navigation meaning of a key: arrows, vi keys and emacs-style controls.
pub open spec fn navigation_of(key: Key) -> Navigation {
    match key {
        Key::Down | Key::Ctrl('n') | Key::Char('j') => Navigation::Forward,
        Key::Up | Key::Ctrl('p') | Key::Char('k') => Navigation::Back,
        Key::Ctrl('h') | Key::Home => Navigation::First,
        Key::Ctrl('e') | Key::End => Navigation::Last,
        Key::Ctrl('d') | Key::PageDown => Navigation::HalfPageForward,
        Key::Ctrl('u') | Key::PageUp => Navigation::HalfPageBack,
        _ => Navigation::Stay,
    }
}

/// Position reached from `pos` by a navigation step, before clamping to the
/// content; `Last` stands for the largest position there is.
pub open spec fn moved(pos: int, height: int, nav: Navigation) -> int {
    let half = height / 2;
    match nav {
        Navigation::Stay => pos,
        Navigation::Forward => pos + 1,
        Navigation::Back => if pos >= 1 { pos - 1 } else { 0 },
        Navigation::First => 0,
        Navigation::Last => usize::MAX as int,
        Navigation::HalfPageForward => pos + half,
        Navigation::HalfPageBack => if pos >= half { pos - half } else { 0 },
    }
}

pub open spec fn min(a: int, b: int) -> int {
    if a <= b { a } else { b }
}

pub open spec fn max(a: int, b: int) -> int {
    if a >= b { a } else { b }
}

/// Classifies a key as a navigation step.
pub fn navigation(key: Key) -> (r: Navigation)
    ensures
        r == navigation_of(key),
{
    match key {
        Key::Down | Key::Ctrl('n') | Key::Char('j') => Navigation::Forward,
        Key::Up | Key::Ctrl('p') | Key::Char('k') => Navigation::Back,
        Key::Ctrl('h') | Key::Home => Navigation::First,
        Key::Ctrl('e') | Key::End => Navigation::Last,
        Key::Ctrl('d') | Key::PageDown => Navigation::HalfPageForward,
        Key::Ctrl('u') | Key::PageUp => Navigation::HalfPageBack,
        _ => Navigation::Stay,
    }
}

/// Moves `pos` by one navigation step and clamps the result to `limit`.
pub fn move_clamped(pos: usize, height: usize, nav: Navigation, limit: usize) -> (r: usize)
    ensures
        r as int == min(moved(pos as int, height as int, nav), limit as int),
{
    let half = height / 2;
    let raw = match nav {
        Navigation::Stay => pos,
        Navigation::Forward => pos.saturating_add(1),
        Navigation::Back => pos.saturating_sub(1),
        Navigation::First => 0,
        Navigation::Last => usize::MAX,
        Navigation::HalfPageForward => pos.saturating_add(half),
        Navigation::HalfPageBack => pos.saturating_sub(half),
    };
    if raw < limit {
        raw
    } else {
        limit
    }
}

} // verus!
