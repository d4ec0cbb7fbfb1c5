use vstd::prelude::*;

use crate::key::{min, moved, navigation, navigation_of, move_clamped, Key};

verus! {

/// What the caller of [`SelectMenu::on_key`] should do with its entries.
#[derive(Clone, Copy, Debug, PartialEq, Eq, Structural)]
pub enum SelectMenuAction {
    Nothing,
    Toggle(usize),
    ToggleAll,
}

/// Cursor and scroll window over a list whose length the caller owns.
#[derive(Debug)]
pub struct SelectMenu {
    cursor: usize,
    scroll: usize,
}

/// Largest cursor position for a list of `len` entries.
pub open spec fn last_index(len: int) -> int {
    if len >= 1 { len - 1 } else { 0 }
}

/// Scroll offset that keeps `cursor` inside a window of `height` rows that
/// started at `scroll`, moving the window as little as possible.
pub open spec fn follow_cursor(scroll: int, cursor: int, height: int) -> int {
    if cursor < scroll {
        cursor
    } else if cursor >= scroll + height {
        cursor + 1 - height
    } else {
        scroll
    }
}

impl SelectMenu {
    pub closed spec fn cursor_spec(&self) -> nat {
        self.cursor as nat
    }

    pub closed spec fn scroll_spec(&self) -> nat {
        self.scroll as nat
    }

    pub fn new() -> (r: Self)
        ensures
            r.cursor_spec() == 0,
            r.scroll_spec() == 0,
    {
        SelectMenu { cursor: 0, scroll: 0 }
    }

    pub fn cursor(&self) -> (r: usize)
        ensures
            r == self.cursor_spec(),
    {
        self.cursor
    }

    pub fn scroll(&self) -> (r: usize)
        ensures
            r == self.scroll_spec(),
    {
        self.scroll
    }

    /// Pulls the cursor back onto the last entry of a list of `entries_len`.
    pub fn saturate_cursor(&mut self, entries_len: usize)
        ensures
            final(self).cursor_spec() == min(old(self).cursor_spec() as int, last_index(entries_len as int)),
            final(self).scroll_spec() == old(self).scroll_spec(),
    {
        let last = entries_len.saturating_sub(1);
        if self.cursor > last {
            self.cursor = last;
        }
    }

    pub fn set_cursor(&mut self, cursor: usize)
        ensures
            final(self).cursor_spec() == cursor,
            final(self).scroll_spec() == old(self).scroll_spec(),
    {
        self.cursor = cursor;
    }

    /// Keeps the cursor on the same entry when the entry at `index` is removed.
    pub fn on_remove_entry(&mut self, index: usize)
        ensures
            final(self).cursor_spec() == if index <= old(self).cursor_spec() && old(self).cursor_spec() > 0 {
                old(self).cursor_spec() - 1
            } else {
                old(self).cursor_spec() as int
            },
            final(self).scroll_spec() == old(self).scroll_spec(),
    {
        if index <= self.cursor {
            self.cursor = self.cursor.saturating_sub(1);
        }
    }

    /// Moves the cursor by a navigation key, clamped to the list, slides the
    /// window to keep it visible, and reports a toggle for space or `a`.
    pub fn on_key(&mut self, entries_len: usize, available_height: usize, key: Key) -> (r: SelectMenuAction)
        ensures
            final(self).cursor_spec() == min(
                moved(old(self).cursor_spec() as int, available_height as int, navigation_of(key)),
                last_index(entries_len as int),
            ),
            final(self).scroll_spec() == follow_cursor(
                old(self).scroll_spec() as int,
                final(self).cursor_spec() as int,
                available_height as int,
            ),
            final(self).cursor_spec() <= last_index(entries_len as int),
            available_height > 0 ==> final(self).scroll_spec() <= final(self).cursor_spec()
                < final(self).scroll_spec() + available_height,
            r == (if key == Key::Char(' ') && final(self).cursor_spec() < entries_len {
                SelectMenuAction::Toggle(final(self).cursor_spec() as usize)
            } else if key == Key::Char('a') {
                SelectMenuAction::ToggleAll
            } else {
                SelectMenuAction::Nothing
            }),
    {
        let nav = navigation(key);
        self.cursor = move_clamped(self.cursor, available_height, nav, entries_len.saturating_sub(1));

        if self.cursor < self.scroll {
            self.scroll = self.cursor;
        } else if self.cursor - self.scroll >= available_height {
            self.scroll = self.cursor + 1 - available_height;
        }

        match key {
            Key::Char(' ') if self.cursor < entries_len => SelectMenuAction::Toggle(self.cursor),
            Key::Char('a') => SelectMenuAction::ToggleAll,
            _ => SelectMenuAction::Nothing,
        }
    }
}

/// Cursor and scroll offset after a sequence of keys over a list of `len`
/// entries in a window of `height` rows, one [`SelectMenu::on_key`] step per key.
pub open spec fn menu_after(cursor: int, scroll: int, len: int, height: int, keys: Seq<Key>) -> (int, int)
    decreases keys.len(),
{
    if keys.len() == 0 {
        (cursor, scroll)
    } else {
        let (c, s) = menu_after(cursor, scroll, len, height, keys.drop_last());
        let c2 = min(moved(c, height, navigation_of(keys.last())), last_index(len));
        (c2, follow_cursor(s, c2, height))
    }
}

proof fn lemma_menu_after_bounds(cursor: int, scroll: int, len: int, height: int, keys: Seq<Key>)
    requires
        0 <= cursor,
        0 <= scroll,
        0 <= len,
        0 < height,
    ensures
        menu_after(cursor, scroll, len, height, keys).0 >= 0,
        menu_after(cursor, scroll, len, height, keys).1 >= 0,
        keys.len() > 0 ==> {
            let (c, s) = menu_after(cursor, scroll, len, height, keys);
            c <= last_index(len) && s <= c < s + height
        },
    decreases keys.len(),
{
    if keys.len() > 0 {
        lemma_menu_after_bounds(cursor, scroll, len, height, keys.drop_last());
    }
}

/// After every key of any non-empty sequence, the cursor lies in
/// `[0, max(0, len - 1)]` and inside the visible window `[scroll, scroll + height)`.
pub proof fn law_cursor_in_bounds(cursor: int, scroll: int, len: int, height: int, keys: Seq<Key>)
    requires
        0 <= cursor,
        0 <= scroll,
        0 <= len,
        0 < height,
    ensures
        forall|i: int|
            1 <= i <= keys.len() ==> {
                let (c, s) = #[trigger] menu_after(cursor, scroll, len, height, keys.take(i));
                0 <= c <= last_index(len) && s <= c < s + height
            },
{
    assert forall|i: int| 1 <= i <= keys.len() implies {
        let (c, s) = #[trigger] menu_after(cursor, scroll, len, height, keys.take(i));
        0 <= c <= last_index(len) && s <= c < s + height
    } by {
        lemma_menu_after_bounds(cursor, scroll, len, height, keys.take(i));
    }
}

impl Default for SelectMenu {
    fn default() -> (r: Self)
        ensures
            r.cursor_spec() == 0,
            r.scroll_spec() == 0,
    {
        SelectMenu::new()
    }
}

} // verus!
