use vstd::prelude::*;

use crate::action::ActionKind;
use crate::text::{split_words, string_of, views, words};

verus! {

/// The key chord that invokes each action kind.
pub open spec fn shortcut_of(k: ActionKind) -> Seq<char> {
    match k {
        ActionKind::Help => seq!['h'],
        ActionKind::Quit => seq!['q'],
        ActionKind::Status => seq!['s'],
        ActionKind::Log => seq!['l'],
        ActionKind::LogCount => seq!['L', 'C'],
        ActionKind::CurrentFullRevision => seq!['e', 'e'],
        ActionKind::CurrentDiffAll => seq!['d', 'd'],
        ActionKind::CurrentDiffSelected => seq!['d', 's'],
        ActionKind::RevisionChanges => seq!['D', 'C'],
        ActionKind::RevisionDiffAll => seq!['D', 'D'],
        ActionKind::RevisionDiffSelected => seq!['D', 'S'],
        ActionKind::CommitAll => seq!['c', 'c'],
        ActionKind::CommitSelected => seq!['c', 's'],
        ActionKind::Update => seq!['u'],
        ActionKind::Merge => seq!['m'],
        ActionKind::RevertAll => seq!['R', 'A'],
        ActionKind::RevertSelected => seq!['r', 's'],
        ActionKind::UnresolvedConflicts => seq!['r', 'r'],
        ActionKind::MergeTakingOther => seq!['r', 'o'],
        ActionKind::MergeTakingLocal => seq!['r', 'l'],
        ActionKind::Fetch => seq!['f'],
        ActionKind::Pull => seq!['p'],
        ActionKind::Push => seq!['P'],
        ActionKind::NewTag => seq!['t', 'n'],
        ActionKind::ListBranches => seq!['b', 'b'],
        ActionKind::NewBranch => seq!['b', 'n'],
        ActionKind::DeleteBranch => seq!['b', 'd'],
        ActionKind::CustomAction => seq!['x'],
    }
}

/// `c` is a non-empty, strictly shorter beginning of `s`.
pub open spec fn is_proper_prefix(c: Seq<char>, s: Seq<char>) -> bool {
    0 < c.len() < s.len() && c == s.take(c.len() as int)
}

/// The outcome of resolving a key chord against the shortcut table.
#[derive(Clone, Copy, Debug, PartialEq, Eq, Structural)]
pub enum ChordResolution {
    Matched(ActionKind),
    Prefix,
    NoMatch,
}

/// `r` is the resolution of `chord`: the kind whose shortcut it is; else
/// `Prefix` when it begins a longer shortcut; else `NoMatch`.
pub open spec fn resolves_to(chord: Seq<char>, r: ChordResolution) -> bool {
    match r {
        ChordResolution::Matched(k) => shortcut_of(k) == chord,
        ChordResolution::Prefix => (forall|k: ActionKind| #[trigger] shortcut_of(k) != chord) && (
        exists|k: ActionKind| is_proper_prefix(chord, #[trigger] shortcut_of(k))),
        ChordResolution::NoMatch => forall|k: ActionKind|
            #[trigger] shortcut_of(k) != chord && !is_proper_prefix(chord, shortcut_of(k)),
    }
}

/// The two-key shortcut that a one-key chord `c` begins, where there is one.
pub open spec fn longer_shortcut_from(c: char) -> ActionKind {
    if c == 'L' {
        ActionKind::LogCount
    } else if c == 'e' {
        ActionKind::CurrentFullRevision
    } else if c == 'd' {
        ActionKind::CurrentDiffAll
    } else if c == 'D' {
        ActionKind::RevisionChanges
    } else if c == 'c' {
        ActionKind::CommitAll
    } else if c == 'R' {
        ActionKind::RevertAll
    } else if c == 'r' {
        ActionKind::RevertSelected
    } else if c == 't' {
        ActionKind::NewTag
    } else {
        ActionKind::ListBranches
    }
}

proof fn lemma_prefix_witness(chord: Seq<char>, k: ActionKind)
    requires
        chord.len() == 1,
        shortcut_of(k).len() == 2,
        chord[0] == shortcut_of(k)[0],
    ensures
        is_proper_prefix(chord, shortcut_of(k)),
{
    assert(chord =~= shortcut_of(k).take(1));
}

/// Resolves a chord against the shortcut table.
pub fn resolve(chord: &[char]) -> (r: ChordResolution)
    ensures
        resolves_to(chord@, r),
{
    let n = chord.len();
    if n == 1 {
        let c = chord[0];
        let r = match c {
            'h' => ChordResolution::Matched(ActionKind::Help),
            'q' => ChordResolution::Matched(ActionKind::Quit),
            's' => ChordResolution::Matched(ActionKind::Status),
            'l' => ChordResolution::Matched(ActionKind::Log),
            'u' => ChordResolution::Matched(ActionKind::Update),
            'm' => ChordResolution::Matched(ActionKind::Merge),
            'f' => ChordResolution::Matched(ActionKind::Fetch),
            'p' => ChordResolution::Matched(ActionKind::Pull),
            'P' => ChordResolution::Matched(ActionKind::Push),
            'x' => ChordResolution::Matched(ActionKind::CustomAction),
            'L' | 'e' | 'd' | 'D' | 'c' | 'R' | 'r' | 't' | 'b' => ChordResolution::Prefix,
            _ => ChordResolution::NoMatch,
        };
        proof {
            if r is Matched {
                assert(chord@ =~= shortcut_of(r->Matched_0));
            }
            if r is Prefix {
                lemma_prefix_witness(chord@, longer_shortcut_from(c));
            }
        }
        r
    } else if n == 2 {
        let a = chord[0];
        let b = chord[1];
        let r = match (a, b) {
            ('L', 'C') => ChordResolution::Matched(ActionKind::LogCount),
            ('e', 'e') => ChordResolution::Matched(ActionKind::CurrentFullRevision),
            ('d', 'd') => ChordResolution::Matched(ActionKind::CurrentDiffAll),
            ('d', 's') => ChordResolution::Matched(ActionKind::CurrentDiffSelected),
            ('D', 'C') => ChordResolution::Matched(ActionKind::RevisionChanges),
            ('D', 'D') => ChordResolution::Matched(ActionKind::RevisionDiffAll),
            ('D', 'S') => ChordResolution::Matched(ActionKind::RevisionDiffSelected),
            ('c', 'c') => ChordResolution::Matched(ActionKind::CommitAll),
            ('c', 's') => ChordResolution::Matched(ActionKind::CommitSelected),
            ('R', 'A') => ChordResolution::Matched(ActionKind::RevertAll),
            ('r', 's') => ChordResolution::Matched(ActionKind::RevertSelected),
            ('r', 'r') => ChordResolution::Matched(ActionKind::UnresolvedConflicts),
            ('r', 'o') => ChordResolution::Matched(ActionKind::MergeTakingOther),
            ('r', 'l') => ChordResolution::Matched(ActionKind::MergeTakingLocal),
            ('t', 'n') => ChordResolution::Matched(ActionKind::NewTag),
            ('b', 'b') => ChordResolution::Matched(ActionKind::ListBranches),
            ('b', 'n') => ChordResolution::Matched(ActionKind::NewBranch),
            ('b', 'd') => ChordResolution::Matched(ActionKind::DeleteBranch),
            _ => ChordResolution::NoMatch,
        };
        proof {
            if r is Matched {
                assert(chord@ =~= shortcut_of(r->Matched_0));
            }
        }
        r
    } else {
        ChordResolution::NoMatch
    }
}

/// Shortcuts are distinct, so a chord resolves in exactly one way.
pub proof fn law_resolution_unique(chord: Seq<char>, r1: ChordResolution, r2: ChordResolution)
    requires
        resolves_to(chord, r1),
        resolves_to(chord, r2),
    ensures
        r1 == r2,
{
    if r1 is Matched && r2 is Matched {
        let k1 = r1->Matched_0;
        let k2 = r2->Matched_0;
        assert(shortcut_of(k1) == shortcut_of(k2));
        assert(shortcut_of(k1).len() == shortcut_of(k2).len());
        assert(shortcut_of(k1)[0] == shortcut_of(k2)[0]);
        if shortcut_of(k1).len() == 2 {
            assert(shortcut_of(k1)[1] == shortcut_of(k2)[1]);
        }
    } else if r1 is Matched {
        assert(shortcut_of(r1->Matched_0) == chord);
    } else if r2 is Matched {
        assert(shortcut_of(r2->Matched_0) == chord);
    } else if r1 is Prefix && r2 is NoMatch {
        let k = choose|k: ActionKind| is_proper_prefix(chord, #[trigger] shortcut_of(k));
        assert(!is_proper_prefix(chord, shortcut_of(k)));
    } else if r2 is Prefix && r1 is NoMatch {
        let k = choose|k: ActionKind| is_proper_prefix(chord, #[trigger] shortcut_of(k));
        assert(!is_proper_prefix(chord, shortcut_of(k)));
    }
}

/// The resolution of a chord (there is exactly one, see [`law_resolution_unique`]).
pub open spec fn resolution_of(chord: Seq<char>) -> ChordResolution {
    choose|r: ChordResolution| resolves_to(chord, r)
}

pub proof fn lemma_resolution_of(chord: Seq<char>, r: ChordResolution)
    requires
        resolves_to(chord, r),
    ensures
        resolution_of(chord) == r,
{
    law_resolution_unique(chord, r, resolution_of(chord));
}

/// A non-empty chord that resolves to `NoMatch` cannot be completed into any
/// shortcut, while one that resolves to `Prefix` can: so `NoMatch` comes as
/// soon as no extension of the chord could still be valid.
pub proof fn law_no_match_is_earliest(chord: Seq<char>, ext: Seq<char>)
    requires
        chord.len() > 0,
    ensures
        resolves_to(chord, ChordResolution::NoMatch) ==> resolves_to(chord + ext, ChordResolution::NoMatch),
        resolves_to(chord, ChordResolution::Prefix) ==> exists|k: ActionKind|
            #[trigger] shortcut_of(k) == chord + shortcut_of(k).skip(chord.len() as int),
{
    if resolves_to(chord, ChordResolution::NoMatch) {
        let full = chord + ext;
        assert forall|k: ActionKind|
            #[trigger] shortcut_of(k) != full && !is_proper_prefix(full, shortcut_of(k)) by {
            let s = shortcut_of(k);
            assert(full.take(chord.len() as int) =~= chord);
            if s == full {
                if chord.len() < s.len() {
                    assert(s.take(chord.len() as int) =~= chord);
                    assert(is_proper_prefix(chord, s));
                } else {
                    assert(ext.len() == 0);
                    assert(full =~= chord);
                }
            }
            if is_proper_prefix(full, s) {
                assert(s.take(chord.len() as int) =~= full.take(chord.len() as int));
                assert(is_proper_prefix(chord, s));
            }
        }
    }
    if resolves_to(chord, ChordResolution::Prefix) {
        let k = choose|k: ActionKind| is_proper_prefix(chord, #[trigger] shortcut_of(k));
        let s = shortcut_of(k);
        assert(s =~= chord + s.skip(chord.len() as int));
    }
}

/// The keys typed since the last resolution boundary.
#[derive(Debug)]
pub struct KeyChord {
    keys: Vec<char>,
}

impl KeyChord {
    pub closed spec fn keys_spec(&self) -> Seq<char> {
        self.keys@
    }

    pub fn new() -> (r: Self)
        ensures
            r.keys_spec() == Seq::<char>::empty(),
    {
        KeyChord { keys: Vec::new() }
    }

    pub fn keys(&self) -> (r: &[char])
        ensures
            r@ == self.keys_spec(),
    {
        self.keys.as_slice()
    }

    /// Appends a key and resolves the chord; the chord is kept only while it
    /// is the beginning of a longer shortcut.
    pub fn push(&mut self, c: char) -> (r: ChordResolution)
        ensures
            resolves_to(old(self).keys_spec().push(c), r),
            final(self).keys_spec() == if r is Prefix {
                old(self).keys_spec().push(c)
            } else {
                Seq::<char>::empty()
            },
    {
        self.keys.push(c);
        let r = resolve(self.keys.as_slice());
        match r {
            ChordResolution::Prefix => {},
            _ => {
                self.keys = Vec::new();
            },
        }
        r
    }

    /// Resolves the chord as it stands, after a key that carries no character.
    pub fn resolve_current(&mut self) -> (r: ChordResolution)
        ensures
            resolves_to(old(self).keys_spec(), r),
            final(self).keys_spec() == if r is Prefix {
                old(self).keys_spec()
            } else {
                Seq::<char>::empty()
            },
    {
        let r = resolve(self.keys.as_slice());
        match r {
            ChordResolution::Prefix => {},
            _ => {
                self.keys = Vec::new();
            },
        }
        r
    }

    /// Appends a key without resolving the chord.
    pub fn append(&mut self, c: char)
        ensures
            final(self).keys_spec() == old(self).keys_spec().push(c),
    {
        self.keys.push(c);
    }

    pub fn clear(&mut self)
        ensures
            final(self).keys_spec() == Seq::<char>::empty(),
    {
        self.keys = Vec::new();
    }

    /// Handles Esc or Ctrl-C: clears a pending chord and reports whether there
    /// was one; with none pending the key means leaving.
    pub fn cancel(&mut self) -> (r: bool)
        ensures
            r == (old(self).keys_spec().len() > 0),
            final(self).keys_spec() == Seq::<char>::empty(),
    {
        let r = self.keys.len() > 0;
        self.keys = Vec::new();
        r
    }
}

/// A command that the user configured under a shortcut of their own.
#[derive(Clone, Debug)]
pub struct CustomAction {
    pub shortcut: String,
    pub command: String,
    pub args: Vec<String>,
}

/// Reads a configured action from one line of the configuration: its
/// shortcut, its command and then the command's arguments, separated by
/// blanks. A line with fewer than two words configures nothing.
pub fn parse_custom_action(line: &str) -> (r: Option<CustomAction>)
    ensures
        (r is Some) == (words(line@).len() >= 2),
        r matches Some(a) ==> {
            let w = words(line@);
            &&& a.shortcut@ == w[0]
            &&& a.command@ == w[1]
            &&& a.args@.len() == w.len() - 2
            &&& forall|i: int| 0 <= i < a.args@.len() ==> (#[trigger] a.args@[i])@ == w[i + 2]
        },
{
    let chars = crate::text::chars_of(line);
    let w = split_words(&chars);
    if w.len() < 2 {
        return None;
    }
    let shortcut = string_of(w[0].as_slice());
    let command = string_of(w[1].as_slice());
    let mut args: Vec<String> = Vec::new();
    let mut i: usize = 2;
    while i < w.len()
        invariant
            2 <= i <= w@.len(),
            views(w@) == words(line@),
            args@.len() == i - 2,
            forall|j: int| 0 <= j < args@.len() ==> (#[trigger] args@[j])@ == w@[j + 2]@,
        decreases w@.len() - i,
    {
        args.push(string_of(w[i].as_slice()));
        i = i + 1;
    }
    proof {
        assert(views(w@)[0] == w@[0]@);
        assert(views(w@)[1] == w@[1]@);
        assert forall|j: int| 0 <= j < args@.len() implies (#[trigger] args@[j])@ == words(line@)[j + 2] by {
            assert(views(w@)[j + 2] == w@[j + 2]@);
        }
    }
    Some(CustomAction { shortcut, command, args })
}

/// How a chord typed after the custom-action key resolves.
#[derive(Clone, Copy, Debug, PartialEq, Eq, Structural)]
pub enum CustomResolution {
    Run(usize),
    Pending,
    NoMatch,
}

/// `s` is a beginning of `t` (possibly all of it).
pub open spec fn is_prefix(s: Seq<char>, t: Seq<char>) -> bool {
    s.len() <= t.len() && s == t.take(s.len() as int)
}

/// `r` resolves `chord` against the custom shortcuts `shortcuts`: the first
/// shortcut the chord has fully typed runs; else the chord waits while it
/// begins some shortcut; else nothing matches.
pub open spec fn custom_resolves_to(shortcuts: Seq<Seq<char>>, chord: Seq<char>, r: CustomResolution) -> bool {
    match r {
        CustomResolution::Run(i) => 0 <= i < shortcuts.len() && is_prefix(shortcuts[i as int], chord)
            && forall|j: int| 0 <= j < i ==> !is_prefix(#[trigger] shortcuts[j], chord),
        CustomResolution::Pending => (forall|j: int|
            0 <= j < shortcuts.len() ==> !is_prefix(#[trigger] shortcuts[j], chord)) && exists|j: int|
            0 <= j < shortcuts.len() && is_prefix(chord, #[trigger] shortcuts[j]),
        CustomResolution::NoMatch => forall|j: int|
            0 <= j < shortcuts.len() ==> !is_prefix(#[trigger] shortcuts[j], chord) && !is_prefix(
                chord,
                shortcuts[j],
            ),
    }
}

pub open spec fn shortcuts_of(actions: Seq<CustomAction>) -> Seq<Seq<char>> {
    actions.map_values(|a: CustomAction| a.shortcut@)
}

/// Whether `a` begins `b`, compared character by character.
fn starts_with(a: &Vec<char>, b: &[char]) -> (r: bool)
    ensures
        r == is_prefix(a@, b@),
{
    if a.len() > b.len() {
        return false;
    }
    let mut i: usize = 0;
    while i < a.len()
        invariant
            a@.len() <= b@.len(),
            i <= a@.len(),
            forall|j: int| 0 <= j < i ==> a@[j] == b@[j],
        decreases a@.len() - i,
    {
        if a[i] != b[i] {
            assert(a@[i as int] != b@.take(a@.len() as int)[i as int]);
            return false;
        }
        i = i + 1;
    }
    assert(a@ =~= b@.take(a@.len() as int));
    true
}

/// Resolves a chord typed after the custom-action key against the
/// configured actions, in their order.
pub fn resolve_custom(actions: &[CustomAction], chord: &[char]) -> (r: CustomResolution)
    ensures
        custom_resolves_to(shortcuts_of(actions@), chord@, r),
{
    let ghost sc = shortcuts_of(actions@);
    let mut pending = false;
    let mut i: usize = 0;
    while i < actions.len()
        invariant
            sc == shortcuts_of(actions@),
            i <= actions@.len(),
            forall|j: int| 0 <= j < i ==> !is_prefix(#[trigger] sc[j], chord@),
            pending <==> exists|j: int| 0 <= j < i && is_prefix(chord@, #[trigger] sc[j]),
        decreases actions@.len() - i,
    {
        let shortcut = crate::text::chars_of(actions[i].shortcut.as_str());
        if starts_with(&shortcut, chord) {
            return CustomResolution::Run(i);
        }
        let mut chord_vec: Vec<char> = Vec::new();
        chord_vec.extend_from_slice(chord);
        proof {
            assert(chord_vec@ =~= chord@);
        }
        let begins = starts_with(&chord_vec, shortcut.as_slice());
        proof {
            assert(sc[i as int] == shortcut@);
            if begins {
                assert(is_prefix(chord@, sc[i as int]));
            }
            if !pending && !begins {
                assert forall|j: int| 0 <= j < i + 1 implies !is_prefix(chord@, #[trigger] sc[j]) by {
                    if j < i {
                        assert(!(0 <= j < i && is_prefix(chord@, sc[j])));
                    }
                }
            }
        }
        if begins {
            pending = true;
        }
        i = i + 1;
    }
    if pending {
        CustomResolution::Pending
    } else {
        CustomResolution::NoMatch
    }
}

} // verus!
