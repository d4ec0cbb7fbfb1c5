use vstd::prelude::*;

use crate::key::{max, min, move_clamped, moved, navigation, navigation_of, Key};
use crate::text::{chars_of, lines_of, pieces, split_lines, string_of, views};

verus! {

/// The text of the last result shown, split into lines, with a scroll offset.
#[derive(Debug)]
pub struct Output {
    text: String,
    lines: Vec<Vec<char>>,
    scroll: usize,
}

/// Largest scroll offset that still fills a view of `height` rows.
pub open spec fn max_scroll(line_count: int, height: int) -> int {
    max(0, line_count - height)
}

impl Output {
    #[verifier::type_invariant]
    spec fn inv(&self) -> bool {
        &&& views(self.lines@) == lines_of(self.text@)
        &&& self.scroll <= self.lines@.len()
    }

    pub closed spec fn text_spec(&self) -> Seq<char> {
        self.text@
    }

    pub closed spec fn scroll_spec(&self) -> nat {
        self.scroll as nat
    }

    /// The lines of the text; their number is the line count.
    pub open spec fn lines_spec(&self) -> Seq<Seq<char>> {
        lines_of(self.text_spec())
    }

    pub open spec fn line_count_spec(&self) -> nat {
        self.lines_spec().len()
    }

    pub fn new() -> (r: Self)
        ensures
            r.text_spec() == Seq::<char>::empty(),
            r.scroll_spec() == 0,
    {
        let text = String::new();
        let lines: Vec<Vec<char>> = Vec::new();
        proof {
            assert(pieces(text@).drop_last() =~= Seq::<Seq<char>>::empty());
            assert(lines_of(text@) =~= Seq::<Seq<char>>::empty());
            assert(views(lines@) =~= Seq::<Seq<char>>::empty());
        }
        Output { text, lines, scroll: 0 }
    }

    /// Replaces the text and scrolls back to the top.
    pub fn set(&mut self, output: String)
        ensures
            final(self).text_spec() == output@,
            final(self).scroll_spec() == 0,
    {
        let chars = chars_of(output.as_str());
        let lines = split_lines(&chars);
        *self = Output { text: output, lines, scroll: 0 };
    }

    pub fn text(&self) -> (r: &str)
        ensures
            r@ == self.text_spec(),
    {
        self.text.as_str()
    }

    pub fn scroll(&self) -> (r: usize)
        ensures
            r == self.scroll_spec(),
            r <= self.line_count_spec(),
    {
        proof {
            use_type_invariant(self);
        }
        self.scroll
    }

    pub fn line_count(&self) -> (r: usize)
        ensures
            r == self.line_count_spec(),
    {
        proof {
            use_type_invariant(self);
        }
        self.lines.len()
    }

    /// The line at `index`.
    pub fn line(&self, index: usize) -> (r: &Vec<char>)
        requires
            index < self.line_count_spec(),
        ensures
            r@ == self.lines_spec()[index as int],
    {
        proof {
            use_type_invariant(self);
        }
        &self.lines[index]
    }

    /// The lines from the scroll offset to the end of the text.
    pub fn lines_from_scroll(&self) -> (r: Vec<String>)
        ensures
            r@.len() == self.line_count_spec() - self.scroll_spec(),
            forall|j: int|
                0 <= j < r@.len() ==> #[trigger] r@[j]@ == self.lines_spec()[self.scroll_spec() + j],
    {
        proof {
            use_type_invariant(self);
        }
        let mut r: Vec<String> = Vec::new();
        let mut i = self.scroll;
        while i < self.lines.len()
            invariant
                views(self.lines@) == self.lines_spec(),
                self.scroll <= i <= self.lines@.len(),
                r@.len() == i - self.scroll,
                forall|j: int|
                    0 <= j < r@.len() ==> #[trigger] r@[j]@ == self.lines_spec()[self.scroll + j],
            decreases self.lines@.len() - i,
        {
            let line = string_of(self.lines[i].as_slice());
            r.push(line);
            i = i + 1;
        }
        r
    }

    /// Scrolls by a navigation key, never past the point where the last
    /// line reaches the bottom of a view of `available_height` rows.
    pub fn on_key(&mut self, available_height: usize, key: Key)
        ensures
            final(self).text_spec() == old(self).text_spec(),
            final(self).scroll_spec() == min(
                moved(old(self).scroll_spec() as int, available_height as int, navigation_of(key)),
                max_scroll(old(self).line_count_spec() as int, available_height as int),
            ),
            0 <= final(self).scroll_spec() <= max_scroll(
                old(self).line_count_spec() as int,
                available_height as int,
            ),
    {
        proof {
            use_type_invariant(&*self);
        }
        let nav = navigation(key);
        let limit = self.lines.len().saturating_sub(available_height);
        let scroll = move_clamped(self.scroll, available_height, nav, limit);
        self.scroll = scroll;
    }
}

/// Scroll offset after a sequence of keys in a view of `height` rows over
/// `line_count` lines, one [`Output::on_key`] step per key.
pub open spec fn scroll_after(scroll: int, line_count: int, height: int, keys: Seq<Key>) -> int
    decreases keys.len(),
{
    if keys.len() == 0 {
        scroll
    } else {
        min(
            moved(scroll_after(scroll, line_count, height, keys.drop_last()), height, navigation_of(keys.last())),
            max_scroll(line_count, height),
        )
    }
}

proof fn lemma_scroll_after_bounds(scroll: int, line_count: int, height: int, keys: Seq<Key>)
    requires
        0 <= scroll,
        0 <= height,
    ensures
        0 <= scroll_after(scroll, line_count, height, keys),
        keys.len() > 0 || scroll <= max_scroll(line_count, height) ==> scroll_after(scroll, line_count, height, keys)
            <= max_scroll(line_count, height),
    decreases keys.len(),
{
    if keys.len() > 0 {
        lemma_scroll_after_bounds(scroll, line_count, height, keys.drop_last());
    }
}

/// Starting from a scroll offset within the content, every key of any
/// sequence leaves the offset between 0 and `max(0, line_count - height)`.
pub proof fn law_scroll_in_bounds(scroll: int, line_count: int, height: int, keys: Seq<Key>)
    requires
        0 <= scroll <= max_scroll(line_count, height),
        0 <= height,
    ensures
        forall|i: int|
            0 <= i <= keys.len() ==> 0 <= #[trigger] scroll_after(scroll, line_count, height, keys.take(i))
                <= max_scroll(line_count, height),
{
    assert forall|i: int|
        0 <= i <= keys.len() implies 0 <= #[trigger] scroll_after(scroll, line_count, height, keys.take(i))
            <= max_scroll(line_count, height) by {
        lemma_scroll_after_bounds(scroll, line_count, height, keys.take(i));
    }
}

impl Default for Output {
    fn default() -> (r: Self)
        ensures
            r.text_spec() == Seq::<char>::empty(),
            r.scroll_spec() == 0,
    {
        Output::new()
    }
}

} // verus!
