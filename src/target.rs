use vstd::prelude::*;

use crate::action::ActionKind;
use crate::session::Tui;
use crate::text::{chars_of, is_blank, lines_of, split_lines, string_of, views};

verus! {

pub open spec fn is_hex_digit(c: char) -> bool {
    ('0' <= c && c <= '9') || ('a' <= c && c <= 'f') || ('A' <= c && c <= 'F')
}

/// Whether `word` names a target in a result of `kind`: a revision id (hex
/// digits) in a log, a branch name (anything but the `*` that marks the
/// current branch) in a branch list.
pub open spec fn names_target(kind: ActionKind, word: Seq<char>) -> bool {
    match kind {
        ActionKind::Log | ActionKind::LogCount => word.len() > 0 && forall|i: int|
            0 <= i < word.len() ==> #[trigger] is_hex_digit(word[i]),
        ActionKind::ListBranches => word.len() > 0 && word != seq!['*'],
        _ => false,
    }
}

/// The first blank-separated word that names a target, reading `s` from the
/// front after the partial word `cur`.
pub open spec fn first_target(kind: ActionKind, s: Seq<char>, cur: Seq<char>) -> Option<Seq<char>>
    decreases s.len(),
{
    if s.len() == 0 {
        if names_target(kind, cur) { Some(cur) } else { None }
    } else if is_blank(s[0]) {
        if names_target(kind, cur) { Some(cur) } else { first_target(kind, s.drop_first(), Seq::empty()) }
    } else {
        first_target(kind, s.drop_first(), cur.push(s[0]))
    }
}

/// The target named on a line of a result of `kind`, if any.
pub open spec fn target_of(kind: ActionKind, line: Seq<char>) -> Option<Seq<char>> {
    first_target(kind, line, Seq::empty())
}

fn all_hex(word: &Vec<char>) -> (r: bool)
    ensures
        r == forall|i: int| 0 <= i < word@.len() ==> #[trigger] is_hex_digit(word@[i]),
{
    let mut i: usize = 0;
    while i < word.len()
        invariant
            i <= word@.len(),
            forall|j: int| 0 <= j < i ==> #[trigger] is_hex_digit(word@[j]),
        decreases word@.len() - i,
    {
        let c = word[i];
        if !(('0' <= c && c <= '9') || ('a' <= c && c <= 'f') || ('A' <= c && c <= 'F')) {
            proof {
                assert(!is_hex_digit(word@[i as int]));
            }
            return false;
        }
        i = i + 1;
    }
    true
}

fn names_target_exec(kind: ActionKind, word: &Vec<char>) -> (r: bool)
    ensures
        r == names_target(kind, word@),
{
    match kind {
        ActionKind::Log | ActionKind::LogCount => word.len() > 0 && all_hex(word),
        ActionKind::ListBranches => {
            let star = word.len() == 1 && word[0] == '*';
            proof {
                if star {
                    assert(word@ =~= seq!['*']);
                }
                if word@ == seq!['*'] {
                    assert(word@.len() == 1 && word@[0] == '*');
                }
            }
            word.len() > 0 && !star
        },
        _ => false,
    }
}

/// Picks the target named on a line of a result of `kind`.
pub fn parse_target(kind: ActionKind, line: &Vec<char>) -> (r: Option<Vec<char>>)
    ensures
        match target_of(kind, line@) {
            Some(t) => r matches Some(v) && v@ == t,
            None => r is None,
        },
{
    let mut cur: Vec<char> = Vec::new();
    let mut i: usize = 0;
    proof {
        assert(line@.skip(0) =~= line@);
    }
    while i < line.len()
        invariant
            i <= line@.len(),
            target_of(kind, line@) == first_target(kind, line@.skip(i as int), cur@),
        decreases line@.len() - i,
    {
        let c = line[i];
        proof {
            assert(line@.skip(i as int).drop_first() =~= line@.skip(i + 1));
        }
        if c == ' ' || c == '\t' {
            if names_target_exec(kind, &cur) {
                return Some(cur);
            }
            cur = Vec::new();
            proof {
                assert(cur@ =~= Seq::<char>::empty());
            }
        } else {
            cur.push(c);
        }
        i = i + 1;
    }
    if names_target_exec(kind, &cur) {
        Some(cur)
    } else {
        None
    }
}

impl Tui {
    /// The target that a prompt starts with: picked from the successful
    /// latest result of the previous action, on its line at the view's
    /// scroll offset.
    pub fn previous_target(&self) -> (r: Option<String>)
        requires
            self.wf(),
        ensures
            ({
                let prev = self.cache_spec().results[self.previous_spec()];
                let lines = lines_of(prev.1);
                let at = self.output_spec().scroll_spec();
                if prev.0 && at < lines.len() {
                    match target_of(self.previous_spec(), lines[at as int]) {
                        Some(t) => r matches Some(s) && s@ == t,
                        None => r is None,
                    }
                } else {
                    r is None
                }
            }),
    {
        let kind = self.previous_action_kind();
        let result = self.cached_result(kind);
        if !result.success {
            return None;
        }
        let lines = split_lines(&chars_of(result.output.as_str()));
        let at = self.output().scroll();
        if at >= lines.len() {
            return None;
        }
        proof {
            assert(views(lines@)[at as int] == lines@[at as int]@);
        }
        match parse_target(kind, &lines[at]) {
            Some(t) => Some(string_of(t.as_slice())),
            None => None,
        }
    }
}

} // verus!
