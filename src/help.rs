use vstd::prelude::*;

use crate::action::{name_of, ActionKind};
use crate::ansi::{csi, decimal, is_color_command, move_to_next_line, reset_color, rgb_selector, set_foreground_rgb};
use crate::chord::shortcut_of;
use crate::text::{chars_of, string_of};

verus! {

/// Moving `n` lines down, to the start of a line.
pub open spec fn next_lines(n: nat) -> Seq<char> {
    csi() + decimal(n) + seq!['E']
}

/// The actions in the order the help lists them, each with whether a blank
/// line follows it.
pub open spec fn help_order() -> Seq<(ActionKind, bool)> {
    seq![
        (ActionKind::Help, false),
        (ActionKind::Quit, true),
        (ActionKind::Status, false),
        (ActionKind::Log, false),
        (ActionKind::LogCount, false),
        (ActionKind::CurrentFullRevision, false),
        (ActionKind::CurrentDiffAll, false),
        (ActionKind::CurrentDiffSelected, false),
        (ActionKind::RevisionChanges, false),
        (ActionKind::RevisionDiffAll, false),
        (ActionKind::RevisionDiffSelected, true),
        (ActionKind::CommitAll, false),
        (ActionKind::CommitSelected, false),
        (ActionKind::Update, false),
        (ActionKind::Merge, false),
        (ActionKind::RevertAll, false),
        (ActionKind::RevertSelected, true),
        (ActionKind::UnresolvedConflicts, false),
        (ActionKind::MergeTakingOther, false),
        (ActionKind::MergeTakingLocal, true),
        (ActionKind::Fetch, false),
        (ActionKind::Pull, false),
        (ActionKind::Push, true),
        (ActionKind::NewTag, true),
        (ActionKind::ListBranches, false),
        (ActionKind::NewBranch, false),
        (ActionKind::DeleteBranch, true),
        (ActionKind::CustomAction, false),
    ]
}

/// One line of the help: the shortcut in the highlight color `fg`, then the
/// action's name.
pub open spec fn help_entry(entry: (ActionKind, bool), fg: Seq<char>, reset: Seq<char>) -> Seq<char> {
    fg + seq!['\t'] + shortcut_of(entry.0) + reset + seq!['\t', '\t'] + name_of(entry.0) + next_lines(1) + (if entry.1 {
        next_lines(1)
    } else {
        Seq::empty()
    })
}

pub open spec fn help_entries(order: Seq<(ActionKind, bool)>, fg: Seq<char>, reset: Seq<char>) -> Seq<char>
    decreases order.len(),
{
    if order.len() == 0 {
        Seq::empty()
    } else {
        help_entries(order.drop_last(), fg, reset) + help_entry(order.last(), fg, reset)
    }
}

/// The help text: the program's title, the tool's version when known, a
/// hint, and every action's shortcut and name.
pub open spec fn help_text_spec(title: Seq<char>, version: Option<Seq<char>>, fg: Seq<char>) -> Seq<char> {
    title + next_lines(2) + (match version {
        Some(v) => v + next_lines(2),
        None => Seq::empty(),
    }) + "press a key and peform an action"@ + next_lines(2) + help_entries(help_order(), fg, csi() + seq!['0', 'm'])
}

/// Highlight color of shortcuts in the help.
pub const ENTRY_COLOR: (u8, u8, u8) = (255, 180, 100);

impl ActionKind {
    /// The chord that invokes this action.
    pub fn shortcut(self) -> (r: Vec<char>)
        ensures
            r@ == shortcut_of(self),
    {
        let r = match self {
            ActionKind::Help => vec!['h'],
            ActionKind::Quit => vec!['q'],
            ActionKind::Status => vec!['s'],
            ActionKind::Log => vec!['l'],
            ActionKind::LogCount => vec!['L', 'C'],
            ActionKind::CurrentFullRevision => vec!['e', 'e'],
            ActionKind::CurrentDiffAll => vec!['d', 'd'],
            ActionKind::CurrentDiffSelected => vec!['d', 's'],
            ActionKind::RevisionChanges => vec!['D', 'C'],
            ActionKind::RevisionDiffAll => vec!['D', 'D'],
            ActionKind::RevisionDiffSelected => vec!['D', 'S'],
            ActionKind::CommitAll => vec!['c', 'c'],
            ActionKind::CommitSelected => vec!['c', 's'],
            ActionKind::Update => vec!['u'],
            ActionKind::Merge => vec!['m'],
            ActionKind::RevertAll => vec!['R', 'A'],
            ActionKind::RevertSelected => vec!['r', 's'],
            ActionKind::UnresolvedConflicts => vec!['r', 'r'],
            ActionKind::MergeTakingOther => vec!['r', 'o'],
            ActionKind::MergeTakingLocal => vec!['r', 'l'],
            ActionKind::Fetch => vec!['f'],
            ActionKind::Pull => vec!['p'],
            ActionKind::Push => vec!['P'],
            ActionKind::NewTag => vec!['t', 'n'],
            ActionKind::ListBranches => vec!['b', 'b'],
            ActionKind::NewBranch => vec!['b', 'n'],
            ActionKind::DeleteBranch => vec!['b', 'd'],
            ActionKind::CustomAction => vec!['x'],
        };
        proof {
            assert(r@ =~= shortcut_of(self));
        }
        r
    }
}

fn append_str(v: &mut Vec<char>, s: &str)
    ensures
        final(v)@ == old(v)@ + s@,
{
    let mut chars = chars_of(s);
    v.append(&mut chars);
}

fn append_chars(v: &mut Vec<char>, s: &Vec<char>)
    ensures
        final(v)@ == old(v)@ + s@,
{
    let mut i: usize = 0;
    let ghost start = v@;
    while i < s.len()
        invariant
            i <= s@.len(),
            v@ == start + s@.take(i as int),
        decreases s@.len() - i,
    {
        v.push(s[i]);
        proof {
            assert(start + s@.take(i + 1) =~= (start + s@.take(i as int)).push(s@[i as int]));
        }
        i = i + 1;
    }
    proof {
        assert(s@.take(s@.len() as int) =~= s@);
    }
}

fn help_table() -> (r: Vec<(ActionKind, bool)>)
    ensures
        r@ == help_order(),
{
    let r = vec![
        (ActionKind::Help, false),
        (ActionKind::Quit, true),
        (ActionKind::Status, false),
        (ActionKind::Log, false),
        (ActionKind::LogCount, false),
        (ActionKind::CurrentFullRevision, false),
        (ActionKind::CurrentDiffAll, false),
        (ActionKind::CurrentDiffSelected, false),
        (ActionKind::RevisionChanges, false),
        (ActionKind::RevisionDiffAll, false),
        (ActionKind::RevisionDiffSelected, true),
        (ActionKind::CommitAll, false),
        (ActionKind::CommitSelected, false),
        (ActionKind::Update, false),
        (ActionKind::Merge, false),
        (ActionKind::RevertAll, false),
        (ActionKind::RevertSelected, true),
        (ActionKind::UnresolvedConflicts, false),
        (ActionKind::MergeTakingOther, false),
        (ActionKind::MergeTakingLocal, true),
        (ActionKind::Fetch, false),
        (ActionKind::Pull, false),
        (ActionKind::Push, true),
        (ActionKind::NewTag, true),
        (ActionKind::ListBranches, false),
        (ActionKind::NewBranch, false),
        (ActionKind::DeleteBranch, true),
        (ActionKind::CustomAction, false),
    ];
    proof {
        assert(r@ =~= help_order());
    }
    r
}

/// Builds the help text shown at start and on `h`.
pub fn help_text(title: &str, version: Option<&str>) -> (r: String)
    ensures
        exists|fg: Seq<char>|
            is_color_command(fg, rgb_selector(ENTRY_COLOR.0, ENTRY_COLOR.1, ENTRY_COLOR.2)) && r@
                == help_text_spec(
                title@,
                match version {
                    Some(v) => Some(v@),
                    None => None,
                },
                fg,
            ),
{
    let fg = chars_of(set_foreground_rgb(ENTRY_COLOR.0, ENTRY_COLOR.1, ENTRY_COLOR.2).as_str());
    let reset = chars_of(reset_color().as_str());
    let one = chars_of(move_to_next_line(1).as_str());
    let two = chars_of(move_to_next_line(2).as_str());
    let mut v: Vec<char> = Vec::new();
    append_str(&mut v, title);
    append_chars(&mut v, &two);
    match version {
        Some(ver) => {
            append_str(&mut v, ver);
            append_chars(&mut v, &two);
        },
        None => {},
    }
    append_str(&mut v, "press a key and peform an action");
    append_chars(&mut v, &two);
    let ghost head = v@;
    let table = help_table();
    let mut i: usize = 0;
    proof {
        assert(help_order().take(0) =~= Seq::<(ActionKind, bool)>::empty());
        assert(v@ =~= head + help_entries(help_order().take(0), fg@, reset@));
    }
    while i < table.len()
        invariant
            table@ == help_order(),
            i <= table@.len(),
            reset@ == csi() + seq!['0', 'm'],
            one@ == next_lines(1),
            v@ == head + help_entries(help_order().take(i as int), fg@, reset@),
        decreases table@.len() - i,
    {
        let (kind, blank) = table[i];
        let ghost before = v@;
        append_chars(&mut v, &fg);
        v.push('\t');
        append_chars(&mut v, &kind.shortcut());
        append_chars(&mut v, &reset);
        v.push('\t');
        v.push('\t');
        append_str(&mut v, kind.name());
        append_chars(&mut v, &one);
        if blank {
            append_chars(&mut v, &one);
        }
        proof {
            assert(help_order().take(i + 1).drop_last() =~= help_order().take(i as int));
            assert(v@ =~= before + help_entry((kind, blank), fg@, reset@));
        }
        i = i + 1;
    }
    proof {
        assert(help_order().take(28) =~= help_order());
        assert(v@ =~= help_text_spec(
            title@,
            match version {
                Some(v) => Some(v@),
                None => None,
            },
            fg@,
        ));
    }
    string_of(v.as_slice())
}

} // verus!
