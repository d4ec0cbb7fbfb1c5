use vstd::prelude::*;

use crate::key::Key;
use crate::text::{chars_of, string_of};

verus! {

/// Whether `char::is_alphanumeric` holds of a character (Unicode
/// `Alphabetic` or `Numeric`).
pub uninterp spec fn alphanumeric(c: char) -> bool;

/// Relies on `char::is_alphanumeric`.
#[verifier::external_body]
fn is_alphanumeric(c: char) -> (r: bool)
    ensures
        r == alphanumeric(c),
{
    c.is_alphanumeric()
}

/// Relies on `String::push`: appends one character.
#[verifier::external_body]
fn push_char(s: &mut String, c: char)
    ensures
        final(s)@ == old(s)@.push(c),
{
    s.push(c)
}

/// Characters that make up words: alphanumerics and the underscore.
pub open spec fn is_word_spec(c: char) -> bool {
    alphanumeric(c) || c == '_'
}

/// The ASCII whitespace characters: space, tab, line feed, form feed and
/// carriage return.
pub open spec fn is_space_spec(c: char) -> bool {
    c == ' ' || c == '\t' || c == '\n' || c == '\x0C' || c == '\r'
}

fn is_word(c: char) -> (r: bool)
    ensures
        r == is_word_spec(c),
{
    c == '_' || is_alphanumeric(c)
}

fn is_space(c: char) -> (r: bool)
    ensures
        r == is_space_spec(c),
{
    c == ' ' || c == '\t' || c == '\n' || c == '\x0C' || c == '\r'
}

/// The three classes a word deletion goes by.
#[derive(Clone, Copy, Debug, PartialEq, Eq, Structural)]
pub enum CharClass {
    Word,
    Space,
    Punctuation,
}

pub open spec fn class_of(c: char) -> CharClass {
    if is_word_spec(c) {
        CharClass::Word
    } else if is_space_spec(c) {
        CharClass::Space
    } else {
        CharClass::Punctuation
    }
}

/// Whether `c` ends a run that started with a character of class `class`,
/// scanning backwards: a word run stops at a non-word, a whitespace run at
/// anything else, a punctuation run at a word or whitespace character.
pub open spec fn stops_run(class: CharClass, c: char) -> bool {
    match class {
        CharClass::Word => !is_word_spec(c),
        CharClass::Space => is_word_spec(c) || !is_space_spec(c),
        CharClass::Punctuation => is_word_spec(c) || is_space_spec(c),
    }
}

/// Length of the longest prefix of `s` that ends with a character stopping
/// a run of `class`, or 0 when there is none.
pub open spec fn kept_len(s: Seq<char>, class: CharClass) -> nat
    decreases s.len(),
{
    if s.len() == 0 {
        0
    } else if stops_run(class, s.last()) {
        s.len()
    } else {
        kept_len(s.drop_last(), class)
    }
}

/// The text left after deleting the word before the cursor at its end.
pub open spec fn delete_word(s: Seq<char>) -> Seq<char> {
    if s.len() == 0 {
        s
    } else {
        s.take(kept_len(s.drop_last(), class_of(s.last())) as int)
    }
}

/// The text left after one key press in a line editor holding `s`.
pub open spec fn edited(s: Seq<char>, key: Key) -> Seq<char> {
    match key {
        Key::Home | Key::Ctrl('u') => Seq::empty(),
        Key::Ctrl('w') => delete_word(s),
        Key::Backspace | Key::Ctrl('h') => if s.len() == 0 { s } else { s.drop_last() },
        Key::Char(c) => s.push(c),
        _ => s,
    }
}

pub proof fn lemma_kept_len_bound(s: Seq<char>, class: CharClass)
    ensures
        kept_len(s, class) <= s.len(),
    decreases s.len(),
{
    if s.len() > 0 {
        lemma_kept_len_bound(s.drop_last(), class);
    }
}

/// A single-line text editor for prompts.
#[derive(Debug)]
pub struct ReadLine {
    input: String,
}

impl ReadLine {
    pub closed spec fn input_spec(&self) -> Seq<char> {
        self.input@
    }

    pub fn new() -> (r: Self)
        ensures
            r.input_spec() == Seq::<char>::empty(),
    {
        ReadLine { input: String::new() }
    }

    pub fn clear(&mut self)
        ensures
            final(self).input_spec() == Seq::<char>::empty(),
    {
        self.input = String::new();
    }

    pub fn input(&self) -> (r: &str)
        ensures
            r@ == self.input_spec(),
    {
        self.input.as_str()
    }

    /// Applies one key: a character is appended; backspace removes the last
    /// character; Home or Ctrl-u clears; Ctrl-w deletes the previous word.
    pub fn on_key(&mut self, key: Key)
        ensures
            final(self).input_spec() == edited(old(self).input_spec(), key),
    {
        match key {
            Key::Home | Key::Ctrl('u') => self.input = String::new(),
            Key::Ctrl('w') => {
                let mut chars = chars_of(self.input.as_str());
                let n = chars.len();
                if n > 0 {
                    let c = chars[n - 1];
                    let class = if is_word(c) {
                        CharClass::Word
                    } else if is_space(c) {
                        CharClass::Space
                    } else {
                        CharClass::Punctuation
                    };
                    let len = kept_prefix_len(&chars, n - 1, class);
                    proof {
                        assert(chars@.take(n - 1) =~= chars@.drop_last());
                        lemma_kept_len_bound(chars@.drop_last(), class);
                    }
                    chars.truncate(len);
                    proof {
                        assert(chars@ =~= delete_word(self.input@));
                    }
                    self.input = string_of(chars.as_slice());
                }
            }
            Key::Backspace | Key::Ctrl('h') => {
                let mut chars = chars_of(self.input.as_str());
                if chars.len() > 0 {
                    chars.pop();
                    proof {
                        assert(chars@ =~= self.input@.drop_last());
                    }
                    self.input = string_of(chars.as_slice());
                }
            }
            Key::Char(c) => push_char(&mut self.input, c),
            _ => (),
        }
    }
}

/// Scans `chars[..end]` backwards for the last character that stops a run of
/// `class`, and returns the length of the prefix that keeps it.
fn kept_prefix_len(chars: &Vec<char>, end: usize, class: CharClass) -> (r: usize)
    requires
        end <= chars@.len(),
    ensures
        r == kept_len(chars@.take(end as int), class),
{
    let mut i = end;
    while i > 0
        invariant
            i <= end <= chars@.len(),
            kept_len(chars@.take(end as int), class) == kept_len(chars@.take(i as int), class),
        decreases i,
    {
        let c = chars[i - 1];
        proof {
            assert(chars@.take(i as int).drop_last() =~= chars@.take(i - 1));
        }
        let stops = match class {
            CharClass::Word => !is_word(c),
            CharClass::Space => is_word(c) || !is_space(c),
            CharClass::Punctuation => is_word(c) || is_space(c),
        };
        if stops {
            return i;
        }
        i = i - 1;
    }
    0
}

impl Default for ReadLine {
    fn default() -> (r: Self)
        ensures
            r.input_spec() == Seq::<char>::empty(),
    {
        ReadLine::new()
    }
}

} // verus!
