use vstd::prelude::*;

use vstd::utf8::encode_utf8;

use crate::key::Key;
use crate::mode::{ModeContext, ModeStatus};
use crate::output::Output;
use crate::select_menu::{SelectMenu, SelectMenuAction};
use crate::text::{is_blank, lemma_encode_concat};
use crate::ui::{
    draw_lines, escape_of, lemma_append, menu_colors, menu_text, Color, line_end, Drawer, SelectEntryDraw,
    RESERVED_LINES_COUNT,
};

verus! {

/// The state of a file in a revision or in the working copy.
#[derive(Clone, Copy, Debug, PartialEq, Eq, Structural)]
pub enum EntryStatus {
    Added,
    Conflicted,
    Copied,
    Deleted,
    Ignored,
    Missing,
    Modified,
    Renamed,
    Untracked,
    Clean,
    Unknown,
}

/// Number of entry statuses.
pub const STATUS_COUNT: usize = 11;

/// The display order of statuses.
pub open spec fn status_at(r: nat) -> EntryStatus {
    if r == 0 { EntryStatus::Added }
    else if r == 1 { EntryStatus::Conflicted }
    else if r == 2 { EntryStatus::Copied }
    else if r == 3 { EntryStatus::Deleted }
    else if r == 4 { EntryStatus::Ignored }
    else if r == 5 { EntryStatus::Missing }
    else if r == 6 { EntryStatus::Modified }
    else if r == 7 { EntryStatus::Renamed }
    else if r == 8 { EntryStatus::Untracked }
    else if r == 9 { EntryStatus::Clean }
    else { EntryStatus::Unknown }
}

fn status_at_exec(r: usize) -> (s: EntryStatus)
    ensures
        s == status_at(r as nat),
{
    match r {
        0 => EntryStatus::Added,
        1 => EntryStatus::Conflicted,
        2 => EntryStatus::Copied,
        3 => EntryStatus::Deleted,
        4 => EntryStatus::Ignored,
        5 => EntryStatus::Missing,
        6 => EntryStatus::Modified,
        7 => EntryStatus::Renamed,
        8 => EntryStatus::Untracked,
        9 => EntryStatus::Clean,
        _ => EntryStatus::Unknown,
    }
}

/// The color a status is drawn in.
pub open spec fn color_of(st: EntryStatus) -> Color {
    match st {
        EntryStatus::Added => Color::Green,
        EntryStatus::Deleted | EntryStatus::Missing | EntryStatus::Conflicted => Color::Red,
        EntryStatus::Modified => Color::Yellow,
        EntryStatus::Renamed | EntryStatus::Copied => Color::Blue,
        _ => Color::White,
    }
}

/// A fixed-width label of a status.
pub open spec fn label_of(st: EntryStatus) -> Seq<char> {
    match st {
        EntryStatus::Added => "added     "@,
        EntryStatus::Conflicted => "conflicted"@,
        EntryStatus::Copied => "copied    "@,
        EntryStatus::Deleted => "deleted   "@,
        EntryStatus::Ignored => "ignored   "@,
        EntryStatus::Missing => "missing   "@,
        EntryStatus::Modified => "modified  "@,
        EntryStatus::Renamed => "renamed   "@,
        EntryStatus::Untracked => "untracked "@,
        EntryStatus::Clean => "clean     "@,
        EntryStatus::Unknown => "unknown   "@,
    }
}

impl EntryStatus {
    /// The color this status is drawn in.
    pub fn color(self) -> (r: Color)
        ensures
            r == color_of(self),
    {
        match self {
            EntryStatus::Added => Color::Green,
            EntryStatus::Deleted | EntryStatus::Missing | EntryStatus::Conflicted => Color::Red,
            EntryStatus::Modified => Color::Yellow,
            EntryStatus::Renamed | EntryStatus::Copied => Color::Blue,
            _ => Color::White,
        }
    }

    /// A fixed-width label of the status.
    pub fn label(self) -> (r: &'static str)
        ensures
            r@ == label_of(self),
    {
        match self {
            EntryStatus::Added => "added     ",
            EntryStatus::Conflicted => "conflicted",
            EntryStatus::Copied => "copied    ",
            EntryStatus::Deleted => "deleted   ",
            EntryStatus::Ignored => "ignored   ",
            EntryStatus::Missing => "missing   ",
            EntryStatus::Modified => "modified  ",
            EntryStatus::Renamed => "renamed   ",
            EntryStatus::Untracked => "untracked ",
            EntryStatus::Clean => "clean     ",
            EntryStatus::Unknown => "unknown   ",
        }
    }
}

/// The status that a short status code stands for: `A` added, `M`
/// modified, `D` deleted, `R` renamed, `C` copied, `?` untracked, `!`
/// ignored, `U` (or a doubled `A` or `D`) conflicted, judged by the first
/// letter that is not a blank.
pub open spec fn status_of_code(code: Seq<char>) -> EntryStatus {
    if code.contains('U') || code == seq!['A', 'A'] || code == seq!['D', 'D'] {
        EntryStatus::Conflicted
    } else {
        match first_letter(code) {
            None => EntryStatus::Unknown,
            Some(c) => if c == 'A' { EntryStatus::Added }
            else if c == 'M' { EntryStatus::Modified }
            else if c == 'D' { EntryStatus::Deleted }
            else if c == 'R' { EntryStatus::Renamed }
            else if c == 'C' { EntryStatus::Copied }
            else if c == '?' { EntryStatus::Untracked }
            else if c == '!' { EntryStatus::Ignored }
            else { EntryStatus::Unknown },
        }
    }
}

/// The first character of `code` that is not a blank.
pub open spec fn first_letter(code: Seq<char>) -> Option<char>
    decreases code.len(),
{
    if code.len() == 0 {
        None
    } else if is_blank(code[0]) {
        first_letter(code.drop_first())
    } else {
        Some(code[0])
    }
}

impl EntryStatus {
    /// Reads a short status code, as [`status_of_code`] describes.
    pub fn from_code(code: &str) -> (r: EntryStatus)
        ensures
            r == status_of_code(code@),
    {
        let chars = crate::text::chars_of(code);
        let n = chars.len();
        let mut i: usize = 0;
        let mut conflicted = false;
        let mut first: Option<char> = None;
        proof {
            assert(chars@.skip(0) =~= chars@);
        }
        while i < n
            invariant
                n == chars@.len(),
                chars@ == code@,
                i <= n,
                conflicted <==> exists|j: int| 0 <= j < i && chars@[j] == 'U',
                first is None ==> first_letter(chars@) == first_letter(chars@.skip(i as int)),
                first is Some ==> first_letter(chars@) == first,
            decreases n - i,
        {
            let c = chars[i];
            proof {
                assert(chars@.skip(i as int).drop_first() =~= chars@.skip(i + 1));
                assert(chars@.skip(i as int)[0] == c);
            }
            if c == 'U' {
                conflicted = true;
            }
            if first.is_none() && !(c == ' ' || c == '\t') {
                first = Some(c);
            }
            i = i + 1;
        }
        proof {
            assert(conflicted == code@.contains('U'));
            if first is None {
                assert(chars@.skip(n as int).len() == 0);
            }
        }
        let doubled = n == 2 && chars[0] == chars[1] && (chars[0] == 'A' || chars[0] == 'D');
        proof {
            if n == 2 && chars@[0] == 'A' && chars@[1] == 'A' {
                assert(code@ =~= seq!['A', 'A']);
            }
            if n == 2 && chars@[0] == 'D' && chars@[1] == 'D' {
                assert(code@ =~= seq!['D', 'D']);
            }
            if code@ == seq!['A', 'A'] || code@ == seq!['D', 'D'] {
                assert(n == 2 && chars@[0] == chars@[1]);
            }
        }
        if conflicted || doubled {
            return EntryStatus::Conflicted;
        }
        match first {
            None => EntryStatus::Unknown,
            Some(c) => {
                if c == 'A' {
                    EntryStatus::Added
                } else if c == 'M' {
                    EntryStatus::Modified
                } else if c == 'D' {
                    EntryStatus::Deleted
                } else if c == 'R' {
                    EntryStatus::Renamed
                } else if c == 'C' {
                    EntryStatus::Copied
                } else if c == '?' {
                    EntryStatus::Untracked
                } else if c == '!' {
                    EntryStatus::Ignored
                } else {
                    EntryStatus::Unknown
                }
            },
        }
    }
}

/// A changed file of a revision.
#[derive(Clone, Debug)]
pub struct RevisionEntry {
    pub name: String,
    pub status: EntryStatus,
}

impl View for RevisionEntry {
    type V = (Seq<char>, EntryStatus);

    open spec fn view(&self) -> (Seq<char>, EntryStatus) {
        (self.name@, self.status)
    }
}

/// A changed file with its selection mark.
#[derive(Clone, Debug)]
pub struct SelectableRevisionEntry {
    pub name: String,
    pub status: EntryStatus,
    pub selected: bool,
}

/// What a backend reports of a revision: its message and changed files.
#[derive(Clone, Debug)]
pub struct RevisionInfo {
    pub message: String,
    pub entries: Vec<RevisionEntry>,
}

pub open spec fn entry_views(s: Seq<RevisionEntry>) -> Seq<(Seq<char>, EntryStatus)> {
    s.map_values(|e: RevisionEntry| e@)
}

/// The entries of `s` with status `st`, in their order in `s`.
pub open spec fn with_status(s: Seq<(Seq<char>, EntryStatus)>, st: EntryStatus) -> Seq<(Seq<char>, EntryStatus)>
    decreases s.len(),
{
    if s.len() == 0 {
        s
    } else if s.last().1 == st {
        with_status(s.drop_last(), st).push(s.last())
    } else {
        with_status(s.drop_last(), st)
    }
}

/// The entries of `s` grouped by status in display order from rank `r` on,
/// keeping the order of `s` within each group.
pub open spec fn grouped_from(s: Seq<(Seq<char>, EntryStatus)>, r: nat) -> Seq<(Seq<char>, EntryStatus)>
    decreases STATUS_COUNT - r,
{
    if r >= STATUS_COUNT {
        Seq::empty()
    } else {
        with_status(s, status_at(r)) + grouped_from(s, r + 1)
    }
}

/// The entries of `s` in display order: grouped by status, stable within a group.
pub open spec fn sorted_by_status(s: Seq<(Seq<char>, EntryStatus)>) -> Seq<(Seq<char>, EntryStatus)> {
    grouped_from(s, 0)
}

/// Position of a status in the display order.
pub open spec fn rank_of(st: EntryStatus) -> nat {
    match st {
        EntryStatus::Added => 0,
        EntryStatus::Conflicted => 1,
        EntryStatus::Copied => 2,
        EntryStatus::Deleted => 3,
        EntryStatus::Ignored => 4,
        EntryStatus::Missing => 5,
        EntryStatus::Modified => 6,
        EntryStatus::Renamed => 7,
        EntryStatus::Untracked => 8,
        EntryStatus::Clean => 9,
        EntryStatus::Unknown => 10,
    }
}

proof fn lemma_with_status_members(s: Seq<(Seq<char>, EntryStatus)>, st: EntryStatus)
    ensures
        forall|i: int| 0 <= i < with_status(s, st).len() ==> (#[trigger] with_status(s, st)[i]).1 == st,
    decreases s.len(),
{
    if s.len() > 0 {
        lemma_with_status_members(s.drop_last(), st);
    }
}

proof fn lemma_grouped_from_ordered(s: Seq<(Seq<char>, EntryStatus)>, r: nat)
    ensures
        forall|i: int|
            0 <= i < grouped_from(s, r).len() ==> rank_of((#[trigger] grouped_from(s, r)[i]).1) >= r,
        forall|i: int, j: int|
            0 <= i < j < grouped_from(s, r).len() ==> rank_of((#[trigger] grouped_from(s, r)[i]).1) <= rank_of(
                (#[trigger] grouped_from(s, r)[j]).1,
            ),
    decreases STATUS_COUNT - r,
{
    if r < STATUS_COUNT {
        lemma_grouped_from_ordered(s, r + 1);
        let w = with_status(s, status_at(r));
        let g = grouped_from(s, r + 1);
        lemma_with_status_members(s, status_at(r));
        assert(rank_of(status_at(r)) == r);
        assert(grouped_from(s, r) == w + g);
        assert forall|i: int| 0 <= i < (w + g).len() implies rank_of((#[trigger] (w + g)[i]).1) >= r by {
            if i >= w.len() {
                assert((w + g)[i] == g[i - w.len()]);
            }
        }
        assert forall|i: int, j: int| 0 <= i < j < (w + g).len() implies rank_of(
            (#[trigger] (w + g)[i]).1,
        ) <= rank_of((#[trigger] (w + g)[j]).1) by {
            if j < w.len() {
            } else if i < w.len() {
                assert((w + g)[j] == g[j - w.len()]);
            } else {
                assert((w + g)[i] == g[i - w.len()]);
                assert((w + g)[j] == g[j - w.len()]);
            }
        }
    }
}

/// The display order of entries never puts a status before one that
/// precedes it in the status order.
pub proof fn law_sorted_by_status_is_ordered(s: Seq<(Seq<char>, EntryStatus)>)
    ensures
        forall|i: int, j: int|
            0 <= i < j < sorted_by_status(s).len() ==> rank_of((#[trigger] sorted_by_status(s)[i]).1) <= rank_of(
                (#[trigger] sorted_by_status(s)[j]).1,
            ),
{
    lemma_grouped_from_ordered(s, 0);
}

proof fn lemma_grouped_empty(r: nat)
    ensures
        grouped_from(Seq::<(Seq<char>, EntryStatus)>::empty(), r).len() == 0,
    decreases STATUS_COUNT - r,
{
    if r < STATUS_COUNT {
        lemma_grouped_empty(r + 1);
    }
}

proof fn lemma_grouped_push(p: Seq<(Seq<char>, EntryStatus)>, x: (Seq<char>, EntryStatus), r: nat)
    ensures
        grouped_from(p.push(x), r).to_multiset() =~= if rank_of(x.1) >= r {
            grouped_from(p, r).to_multiset().insert(x)
        } else {
            grouped_from(p, r).to_multiset()
        },
    decreases STATUS_COUNT - r,
{
    broadcast use vstd::seq_lib::lemma_multiset_commutative, vstd::seq_lib::to_multiset_build;

    let s = p.push(x);
    if r < STATUS_COUNT {
        lemma_grouped_push(p, x, r + 1);
        let st = status_at(r);
        assert(s.drop_last() =~= p);
        assert(rank_of(st) == r);
        assert(x.1 == st <==> rank_of(x.1) == r) by {
            let y = x.1;
            match y {
                EntryStatus::Added => {},
                EntryStatus::Conflicted => {},
                EntryStatus::Copied => {},
                EntryStatus::Deleted => {},
                EntryStatus::Ignored => {},
                EntryStatus::Missing => {},
                EntryStatus::Modified => {},
                EntryStatus::Renamed => {},
                EntryStatus::Untracked => {},
                EntryStatus::Clean => {},
                EntryStatus::Unknown => {},
            }
        }
        assert(grouped_from(s, r) == with_status(s, st) + grouped_from(s, r + 1));
        assert(grouped_from(p, r) == with_status(p, st) + grouped_from(p, r + 1));
    }
}

/// The display order only rearranges the entries: it holds each of them as
/// often as the input does.
pub proof fn law_sorted_by_status_is_permutation(s: Seq<(Seq<char>, EntryStatus)>)
    ensures
        sorted_by_status(s).to_multiset() =~= s.to_multiset(),
    decreases s.len(),
{
    broadcast use vstd::seq_lib::to_multiset_build;

    if s.len() == 0 {
        lemma_grouped_empty(0);
        assert(s =~= Seq::<(Seq<char>, EntryStatus)>::empty());
        assert(sorted_by_status(s) =~= Seq::<(Seq<char>, EntryStatus)>::empty());
    } else {
        let p = s.drop_last();
        let x = s.last();
        assert(s =~= p.push(x));
        law_sorted_by_status_is_permutation(p);
        lemma_grouped_push(p, x, 0);
    }
}

fn clone_entry(e: &RevisionEntry) -> (r: RevisionEntry)
    ensures
        r@ == e@,
{
    RevisionEntry { name: e.name.clone(), status: e.status }
}

/// Orders entries for display: grouped by status, stable within a group.
pub fn sort_by_status(entries: &Vec<RevisionEntry>) -> (r: Vec<RevisionEntry>)
    ensures
        entry_views(r@) == sorted_by_status(entry_views(entries@)),
{
    let ghost s = entry_views(entries@);
    let mut out: Vec<RevisionEntry> = Vec::new();
    let mut rank: usize = STATUS_COUNT;
    proof {
        assert(entry_views(out@) =~= grouped_from(s, STATUS_COUNT as nat));
    }
    while rank > 0
        invariant
            s == entry_views(entries@),
            rank <= STATUS_COUNT,
            entry_views(out@) == grouped_from(s, rank as nat),
        decreases rank,
    {
        rank = rank - 1;
        let st = status_at_exec(rank);
        let mut group: Vec<RevisionEntry> = Vec::new();
        let mut i: usize = 0;
        proof {
            assert(entries@.take(0).map_values(|e: RevisionEntry| e@) =~= Seq::<(Seq<char>, EntryStatus)>::empty());
        }
        while i < entries.len()
            invariant
                s == entry_views(entries@),
                i <= entries@.len(),
                st == status_at(rank as nat),
                entry_views(group@) == with_status(entry_views(entries@.take(i as int)), st),
            decreases entries@.len() - i,
        {
            proof {
                assert(entry_views(entries@.take(i + 1)).drop_last() =~= entry_views(entries@.take(i as int)));
            }
            if entries[i].status == st {
                let e = clone_entry(&entries[i]);
                group.push(e);
                proof {
                    assert(entry_views(group@) =~= with_status(entry_views(entries@.take(i as int)), st).push(e@));
                }
            }
            i = i + 1;
        }
        proof {
            assert(entries@.take(entries@.len() as int) =~= entries@);
        }
        group.append(&mut out);
        out = group;
        proof {
            assert(entry_views(out@) =~= with_status(s, st) + grouped_from(s, (rank + 1) as nat));
        }
    }
    out
}

/// What a worker hands back for display: the backend's report with its
/// entries in display order, or on failure the error text and no entries.
pub fn prepare_info(fetched: Result<RevisionInfo, String>) -> (r: RevisionInfo)
    ensures
        match fetched {
            Ok(info) => r.message@ == info.message@ && entry_views(r.entries@) == sorted_by_status(
                entry_views(info.entries@),
            ),
            Err(e) => r.message@ == e@ && r.entries@.len() == 0,
        },
{
    match fetched {
        Ok(info) => {
            let entries = sort_by_status(&info.entries);
            RevisionInfo { message: info.message, entries }
        },
        Err(message) => RevisionInfo { message, entries: Vec::new() },
    }
}

/// Selection marks after toggle-all: all cleared when all were set, else all set.
pub open spec fn toggled_all(sel: Seq<bool>) -> Seq<bool> {
    let all = forall|i: int| 0 <= i < sel.len() ==> #[trigger] sel[i];
    Seq::new(sel.len(), |i: int| !all)
}

pub open spec fn selection_of(entries: Seq<SelectableRevisionEntry>) -> Seq<bool> {
    entries.map_values(|e: SelectableRevisionEntry| e.selected)
}

/// Inverts the selection of all entries as one: if every entry was
/// selected, none is afterwards; otherwise all are.
pub fn toggle_all(entries: &mut Vec<SelectableRevisionEntry>)
    ensures
        final(entries)@.len() == old(entries)@.len(),
        selection_of(final(entries)@) == toggled_all(selection_of(old(entries)@)),
        forall|i: int|
            0 <= i < final(entries)@.len() ==> (#[trigger] final(entries)@[i]).name@ == old(entries)@[i].name@
                && final(entries)@[i].status == old(entries)@[i].status,
{
    let ghost sel = selection_of(entries@);
    let mut all_selected = true;
    let mut i: usize = 0;
    while i < entries.len()
        invariant
            sel == selection_of(entries@),
            i <= entries@.len(),
            all_selected <==> forall|j: int| 0 <= j < i ==> #[trigger] sel[j],
        decreases entries@.len() - i,
    {
        proof {
            assert(sel[i as int] == entries@[i as int].selected);
        }
        if !entries[i].selected {
            all_selected = false;
        }
        i = i + 1;
    }
    let ghost original = entries@;
    let mut i: usize = 0;
    while i < entries.len()
        invariant
            sel == selection_of(original),
            entries@.len() == original.len(),
            i <= entries@.len(),
            all_selected <==> forall|j: int| 0 <= j < sel.len() ==> #[trigger] sel[j],
            forall|j: int| 0 <= j < i ==> (#[trigger] entries@[j]).selected == !all_selected,
            forall|j: int| i <= j < entries@.len() ==> #[trigger] entries@[j] == original[j],
            forall|j: int|
                0 <= j < entries@.len() ==> (#[trigger] entries@[j]).name@ == original[j].name@
                    && entries@[j].status == original[j].status,
        decreases entries@.len() - i,
    {
        let mut e = entries[i].clone_entry();
        e.selected = !all_selected;
        entries.set(i, e);
        i = i + 1;
    }
    proof {
        assert(selection_of(entries@) =~= toggled_all(sel));
    }
}

impl SelectableRevisionEntry {
    fn clone_entry(&self) -> (r: Self)
        ensures
            r.name@ == self.name@,
            r.status == self.status,
            r.selected == self.selected,
    {
        SelectableRevisionEntry { name: self.name.clone(), status: self.status, selected: self.selected }
    }
}

/// Toggle-all is its own inverse on a list whose entries all share one
/// selection state.
pub proof fn law_toggle_all_involutive(sel: Seq<bool>)
    requires
        forall|i: int, j: int| 0 <= i < sel.len() && 0 <= j < sel.len() ==> sel[i] == sel[j],
    ensures
        toggled_all(toggled_all(sel)) == sel,
{
    let once = toggled_all(sel);
    if sel.len() > 0 {
        if sel[0] {
            assert(forall|i: int| 0 <= i < sel.len() ==> #[trigger] sel[i] == sel[0]);
            assert(!once[0]);
        } else {
            assert(!sel[0]);
            assert(once[0]);
            assert(forall|i: int| 0 <= i < once.len() ==> #[trigger] once[i]);
        }
    }
    assert(toggled_all(once) =~= sel);
}

/// What a worker of this mode delivers.
#[derive(Debug)]
pub enum Response {
    Info(RevisionInfo),
    Diff(String),
}

/// Phase of the mode: showing the revision, waiting for it, or showing a diff.
#[derive(Clone, Copy, Debug, PartialEq, Eq, Structural)]
pub enum State {
    Idle,
    Waiting,
    ViewDiff,
}

impl Default for State {
    fn default() -> (r: Self)
        ensures
            r == State::Idle,
    {
        State::Idle
    }
}

/// The revision-details mode: a revision's message and changed files, with
/// a selection of files whose diff can be shown.
#[derive(Debug)]
pub struct Mode {
    state: State,
    entries: Vec<SelectableRevisionEntry>,
    output: Output,
    select: SelectMenu,
    show_full_message: bool,
}

/// Rows left for content in a viewport of `rows` rows.
pub open spec fn available_height(rows: u16) -> int {
    if rows as int >= RESERVED_LINES_COUNT { rows as int - RESERVED_LINES_COUNT } else { 0 }
}

impl Mode {
    pub closed spec fn state_spec(&self) -> State {
        self.state
    }

    pub closed spec fn entries_spec(&self) -> Seq<SelectableRevisionEntry> {
        self.entries@
    }

    pub closed spec fn output_spec(&self) -> Output {
        self.output
    }

    pub closed spec fn select_spec(&self) -> SelectMenu {
        self.select
    }

    pub closed spec fn show_full_message_spec(&self) -> bool {
        self.show_full_message
    }

    pub fn new() -> (r: Self)
        ensures
            r.state_spec() == State::Idle,
            r.entries_spec().len() == 0,
            r.output_spec().text_spec().len() == 0,
            r.select_spec().cursor_spec() == 0,
            !r.show_full_message_spec(),
    {
        Mode {
            state: State::Idle,
            entries: Vec::new(),
            output: Output::new(),
            select: SelectMenu::new(),
            show_full_message: false,
        }
    }

    /// The entries that are selected, in order, without their marks.
    pub fn get_selected_entries(&self) -> (r: Vec<RevisionEntry>)
        ensures
            entry_views(r@) == selected_views(self.entries_spec()),
    {
        let mut r: Vec<RevisionEntry> = Vec::new();
        let mut i: usize = 0;
        proof {
            assert(self.entries@.take(0) =~= Seq::<SelectableRevisionEntry>::empty());
            assert(entry_views(r@) =~= Seq::<(Seq<char>, EntryStatus)>::empty());
        }
        while i < self.entries.len()
            invariant
                i <= self.entries@.len(),
                entry_views(r@) == selected_views(self.entries@.take(i as int)),
            decreases self.entries@.len() - i,
        {
            proof {
                assert(self.entries@.take(i + 1).drop_last() =~= self.entries@.take(i as int));
            }
            if self.entries[i].selected {
                let e = RevisionEntry { name: self.entries[i].name.clone(), status: self.entries[i].status };
                r.push(e);
                proof {
                    assert(entry_views(r@) =~= selected_views(self.entries@.take(i as int)).push(e@));
                }
            }
            i = i + 1;
        }
        proof {
            assert(self.entries@.take(self.entries@.len() as int) =~= self.entries@);
        }
        r
    }

    /// Enters the mode. Unless a fetch is already pending, clears the view,
    /// starts waiting, and returns true: the caller then runs a worker that
    /// fetches the revision and delivers [`Response::Info`].
    pub fn on_enter(&mut self) -> (r: bool)
        ensures
            r == (old(self).state_spec() != State::Waiting),
            r ==> final(self).state_spec() == State::Waiting && final(self).output_spec().text_spec().len() == 0
                && final(self).select_spec().cursor_spec() == 0 && !final(self).show_full_message_spec()
                && final(self).entries_spec() == old(self).entries_spec(),
            !r ==> *final(self) == *old(self),
    {
        if let State::Waiting = self.state {
            return false;
        }
        self.state = State::Waiting;
        self.output.set(String::new());
        self.select.saturate_cursor(0);
        self.show_full_message = false;
        true
    }

    /// Applies a key. While idle the key moves the selection, toggles
    /// entries, toggles the full message (Tab), or with `d` and entries
    /// present switches to the diff view and returns the selected entries,
    /// whose diff the caller's worker then delivers as [`Response::Diff`].
    /// While a diff is shown the key scrolls it.
    pub fn on_key(&mut self, ctx: &ModeContext, key: Key) -> (r: (ModeStatus, Option<Vec<RevisionEntry>>))
        ensures
            !r.0.pending_input,
            old(self).state_spec() == State::Waiting ==> *final(self) == *old(self) && r.1 is None,
            old(self).state_spec() == State::ViewDiff ==> r.1 is None
                && final(self).state_spec() == State::ViewDiff
                && final(self).entries_spec() == old(self).entries_spec()
                && final(self).output_spec().text_spec() == old(self).output_spec().text_spec()
                && final(self).output_spec().scroll_spec() == crate::key::min(
                    crate::key::moved(
                        old(self).output_spec().scroll_spec() as int,
                        available_height(ctx.viewport_size.1),
                        crate::key::navigation_of(key),
                    ),
                    crate::output::max_scroll(
                        old(self).output_spec().line_count_spec() as int,
                        available_height(ctx.viewport_size.1),
                    ),
                ),
            old(self).state_spec() == State::Idle ==> {
                &&& final(self).entries_spec().len() == old(self).entries_spec().len()
                &&& forall|i: int|
                    0 <= i < old(self).entries_spec().len() ==> (#[trigger] final(self).entries_spec()[i]).name@
                        == old(self).entries_spec()[i].name@ && final(self).entries_spec()[i].status
                        == old(self).entries_spec()[i].status
                &&& !(key == Key::Char('d') && old(self).entries_spec().len() > 0) ==> final(self).output_spec()
                    == old(self).output_spec()
                &&& final(self).show_full_message_spec() == (old(self).show_full_message_spec() != (key
                    == Key::Tab))
                &&& final(self).select_spec().cursor_spec() == crate::key::min(
                    crate::key::moved(
                        old(self).select_spec().cursor_spec() as int,
                        available_height(ctx.viewport_size.1),
                        crate::key::navigation_of(key),
                    ),
                    crate::select_menu::last_index(old(self).entries_spec().len() as int),
                )
                &&& final(self).select_spec().scroll_spec() == crate::select_menu::follow_cursor(
                    old(self).select_spec().scroll_spec() as int,
                    final(self).select_spec().cursor_spec() as int,
                    available_height(ctx.viewport_size.1),
                )
                &&& if key == Key::Char('d') && old(self).entries_spec().len() > 0 {
                    &&& final(self).state_spec() == State::ViewDiff
                    &&& final(self).output_spec().text_spec().len() == 0
                    &&& (r.1 matches Some(sel) && entry_views(sel@) == selected_views(final(self).entries_spec()))
                } else {
                    final(self).state_spec() == State::Idle && r.1 is None
                }
                &&& key == Key::Char('a') ==> selection_of(final(self).entries_spec()) == toggled_all(
                    selection_of(old(self).entries_spec()),
                )
                &&& key == Key::Char(' ') && old(self).entries_spec().len() > 0 ==> {
                    let c = final(self).select_spec().cursor_spec() as int;
                    &&& final(self).entries_spec()[c].selected != old(self).entries_spec()[c].selected
                    &&& forall|j: int|
                        0 <= j < old(self).entries_spec().len() && j != c ==> (#[trigger] final(self).entries_spec()[j]).selected == old(self).entries_spec()[j].selected
                }
                &&& key != Key::Char('a') && key != Key::Char(' ') ==> selection_of(final(self).entries_spec())
                    == selection_of(old(self).entries_spec())
            },
    {
        let available_height = (ctx.viewport_size.1 as usize).saturating_sub(RESERVED_LINES_COUNT);
        let mut request: Option<Vec<RevisionEntry>> = None;
        match self.state {
            State::Idle => {
                let ghost before = self.entries@;
                let action = self.select.on_key(self.entries.len(), available_height, key);
                match action {
                    SelectMenuAction::Nothing => (),
                    SelectMenuAction::Toggle(i) => {
                        let mut e = self.entries[i].clone_entry();
                        e.selected = !e.selected;
                        self.entries.set(i, e);
                        proof {
                            assert forall|j: int| 0 <= j < before.len() && j != i implies
                                (#[trigger] self.entries@[j]).selected == before[j].selected by {}
                        }
                    },
                    SelectMenuAction::ToggleAll => {
                        toggle_all(&mut self.entries);
                    },
                }
                proof {
                    if key != Key::Char('a') && key != Key::Char(' ') {
                        assert(selection_of(self.entries@) =~= selection_of(before));
                    }
                }
                match key {
                    Key::Tab => {
                        self.show_full_message = !self.show_full_message;
                    },
                    Key::Char('d') => {
                        if self.entries.len() > 0 {
                            self.state = State::ViewDiff;
                            self.output.set(String::new());
                            request = Some(self.get_selected_entries());
                        }
                    },
                    _ => (),
                }
            },
            State::ViewDiff => self.output.on_key(available_height, key),
            State::Waiting => (),
        }
        (ModeStatus { pending_input: false }, request)
    }

    /// Applies a worker's response if the mode still waits for it: revision
    /// details only while waiting for them, a diff only while showing the
    /// diff view. Anything else is stale and dropped.
    pub fn on_response(&mut self, response: Response)
        ensures
            match response {
                Response::Info(info) => if old(self).state_spec() == State::Waiting {
                    &&& final(self).state_spec() == State::Idle
                    &&& final(self).output_spec().text_spec() == info.message@
                    &&& final(self).output_spec().scroll_spec() == 0
                    &&& final(self).entries_spec().len() == info.entries@.len()
                    &&& forall|i: int|
                        0 <= i < info.entries@.len() ==> (#[trigger] final(self).entries_spec()[i]).name@
                            == info.entries@[i].name@ && final(self).entries_spec()[i].status
                            == info.entries@[i].status && !final(self).entries_spec()[i].selected
                    &&& final(self).select_spec().cursor_spec() <= crate::select_menu::last_index(
                        info.entries@.len() as int,
                    )
                } else {
                    *final(self) == *old(self)
                },
                Response::Diff(text) => if old(self).state_spec() == State::ViewDiff {
                    &&& final(self).state_spec() == State::ViewDiff
                    &&& final(self).output_spec().text_spec() == text@
                    &&& final(self).output_spec().scroll_spec() == 0
                    &&& final(self).entries_spec() == old(self).entries_spec()
                } else {
                    *final(self) == *old(self)
                },
            },
    {
        match response {
            Response::Info(info) => {
                if let State::Waiting = self.state {
                    self.state = State::Idle;
                    self.output.set(info.message);
                    self.entries = selectable(info.entries);
                    self.select.saturate_cursor(self.entries.len());
                }
            },
            Response::Diff(output) => {
                if let State::ViewDiff = self.state {
                    self.output.set(output);
                }
            },
        }
    }

    /// Whether the mode waits for a worker; the diff view counts as waiting
    /// until its text has arrived.
    pub fn is_waiting_response(&self) -> (r: bool)
        ensures
            r == match self.state_spec() {
                State::Idle => false,
                State::Waiting => true,
                State::ViewDiff => self.output_spec().text_spec().len() == 0,
            },
    {
        match self.state {
            State::Idle => false,
            State::Waiting => true,
            State::ViewDiff => self.output.text().is_empty(),
        }
    }

    /// Title, main key hint and secondary key hint for the header.
    pub fn header(&self) -> (r: (&'static str, &'static str, &'static str))
        ensures
            self.state_spec() == State::ViewDiff ==> r.0@ == "diff"@ && r.1@ == ""@ && r.2@
                == "[arrows]move"@,
            self.state_spec() != State::ViewDiff ==> r.0@ == "revision details"@ && r.1@ == "[d]diff"@
                && r.2@ == "[arrows]move [space]toggle [a]toggle all"@,
    {
        match self.state {
            State::Idle | State::Waiting => (
                "revision details",
                "[d]diff",
                "[arrows]move [space]toggle [a]toggle all",
            ),
            State::ViewDiff => ("diff", "", "[arrows]move"),
        }
    }
}

/// The row of a changed file: its selection mark, its status label in the
/// status color, then its name in white.
pub open spec fn entry_row(e: SelectableRevisionEntry) -> Seq<char> {
    seq![if e.selected { '+' } else { ' ' }, ' '] + escape_of(color_of(e.status)) + label_of(e.status) + escape_of(
        Color::White,
    ) + seq![' '] + e.name@
}

impl SelectEntryDraw for SelectableRevisionEntry {
    open spec fn row(&self, hovered: bool, full: bool) -> Seq<char> {
        entry_row(*self)
    }

    open spec fn rows(&self, hovered: bool, full: bool) -> nat {
        1
    }

    /// Draws the selection mark, the status label in its color and the file
    /// name, on one row.
    fn draw(&self, drawer: &mut Drawer, hovered: bool, full: bool) -> (r: usize) {
        let ghost base = drawer.bytes();
        let mark = if self.selected { '+' } else { ' ' };
        let color = self.status.color().escape();
        let white = Color::White.escape();
        let label = self.status.label();
        let ghost mut t: Seq<char> = Seq::empty();
        proof {
            assert(base + encode_utf8(t) =~= base);
        }
        drawer.char(mark);
        proof { lemma_append(base, t, seq![mark]); t = t + seq![mark]; }
        drawer.char(' ');
        proof { lemma_append(base, t, seq![' ']); t = t + seq![' ']; }
        drawer.str(color);
        proof { lemma_append(base, t, color@); t = t + color@; }
        drawer.str(label);
        proof { lemma_append(base, t, label@); t = t + label@; }
        drawer.str(white);
        proof { lemma_append(base, t, white@); t = t + white@; }
        drawer.char(' ');
        proof { lemma_append(base, t, seq![' ']); t = t + seq![' ']; }
        drawer.str(self.name.as_str());
        proof {
            lemma_append(base, t, self.name@);
            assert(t + self.name@ =~= entry_row(*self));
        }
        1
    }
}

/// The header height handed to the select menu below `rows` rows of text
/// and a blank row.
pub open spec fn menu_top(rows: nat) -> u16 {
    if rows < 65535 { (rows + 1) as u16 } else { 65535u16 }
}

/// The row that summarizes a text: its first line, cut to the view's width
/// (at least one character is kept).
pub open spec fn summary_line(lines: Seq<Seq<char>>, width: u16) -> Seq<char> {
    let first = if lines.len() > 0 { lines[0] } else { Seq::empty() };
    let keep = if width >= 1 { width as int } else { 1 };
    if first.len() <= keep { first } else { first.take(keep) }
}

impl Mode {
    /// Draws the mode: while idle, the message (its first line, or all of it
    /// after Tab) followed by a blank row and the changed files; otherwise
    /// the whole output.
    pub fn draw(&self, drawer: &mut Drawer)
        ensures
            final(drawer).viewport() == old(drawer).viewport(),
            ({
                let out = self.output_spec();
                let size = old(drawer).viewport();
                let d = draw_lines(out.lines_spec().skip(out.scroll_spec() as int), size.0 as nat, size.1 as nat, 0);
                let sel = self.select_spec();
                &&& self.state_spec() != State::Idle ==> final(drawer).bytes() == old(drawer).bytes() + d.0
                &&& self.state_spec() == State::Idle && self.show_full_message_spec() ==> exists|colors: Seq<Seq<char>>|
                    menu_colors(colors) && final(drawer).bytes() == old(drawer).bytes() + d.0 + encode_utf8(
                        line_end() + menu_text(
                            self.entries_spec(),
                            sel.scroll_spec(),
                            sel.cursor_spec(),
                            false,
                            size.1,
                            menu_top(d.1),
                            colors,
                        ),
                    )
                &&& self.state_spec() == State::Idle && !self.show_full_message_spec() ==> exists|
                    colors: Seq<Seq<char>>,
                |
                    menu_colors(colors) && final(drawer).bytes() == old(drawer).bytes() + encode_utf8(
                        summary_line(out.lines_spec(), size.0) + line_end() + line_end() + menu_text(
                            self.entries_spec(),
                            sel.scroll_spec(),
                            sel.cursor_spec(),
                            false,
                            size.1,
                            menu_top(1),
                            colors,
                        ),
                    )
            }),
    {
        let ghost base = drawer.bytes();
        let idle = match self.state {
            State::Idle => true,
            _ => false,
        };
        let show_full_output = !idle || self.show_full_message;
        let ghost mut t: Seq<char> = Seq::empty();
        let line_count = if show_full_output {
            drawer.output(&self.output)
        } else {
            let width = drawer.size().0;
            let keep: usize = if width >= 1 { width as usize } else { 1 };
            proof {
                assert(base + encode_utf8(t) =~= base);
            }
            if self.output.line_count() > 0 {
                let first = self.output.line(0);
                let end = if first.len() <= keep { first.len() } else { keep };
                let mut j: usize = 0;
                while j < end
                    invariant
                        j <= end <= first@.len(),
                        drawer.viewport() == old(drawer).viewport(),
                        t == first@.take(j as int),
                        drawer.bytes() == base + encode_utf8(t),
                    decreases end - j,
                {
                    let c = first[j];
                    drawer.char(c);
                    proof {
                        lemma_append(base, t, seq![c]);
                        t = t + seq![c];
                        assert(t =~= first@.take(j + 1));
                    }
                    j = j + 1;
                }
                proof {
                    assert(t =~= summary_line(self.output.lines_spec(), width));
                }
            } else {
                proof {
                    assert(t =~= summary_line(self.output.lines_spec(), width));
                }
            }
            drawer.next_line();
            proof {
                lemma_append(base, t, line_end());
                t = t + line_end();
            }
            1
        };
        if idle {
            let ghost b1 = drawer.bytes();
            drawer.next_line();
            let header_height: u16 = if line_count < 65535 { (line_count + 1) as u16 } else { 65535 };
            let ghost b2 = drawer.bytes();
            drawer.select_menu(&self.select, header_height, false, self.entries.as_slice());
            proof {
                let colors = choose|colors: Seq<Seq<char>>| menu_colors(colors) && drawer.bytes() == b2 + encode_utf8(
                    menu_text(
                        self.entries@,
                        self.select.scroll_spec(),
                        self.select.cursor_spec(),
                        false,
                        old(drawer).viewport().1,
                        header_height,
                        colors,
                    ),
                );
                let m = menu_text(
                    self.entries@,
                    self.select.scroll_spec(),
                    self.select.cursor_spec(),
                    false,
                    old(drawer).viewport().1,
                    header_height,
                    colors,
                );
                if self.show_full_message {
                    lemma_encode_concat(line_end(), m);
                    assert(drawer.bytes() =~= b1 + encode_utf8(line_end() + m));
                } else {
                    lemma_append(base, t, line_end());
                    lemma_append(base, t + line_end(), m);
                    assert(drawer.bytes() =~= base + encode_utf8(t + line_end() + m));
                }
            }
        }
    }
}

impl Default for Mode {
    fn default() -> (r: Self)
        ensures
            r.state_spec() == State::Idle,
            r.entries_spec().len() == 0,
            r.output_spec().text_spec().len() == 0,
    {
        Mode::new()
    }
}

/// Names and statuses of the selected entries, in order.
pub open spec fn selected_views(s: Seq<SelectableRevisionEntry>) -> Seq<(Seq<char>, EntryStatus)>
    decreases s.len(),
{
    if s.len() == 0 {
        Seq::empty()
    } else if s.last().selected {
        selected_views(s.drop_last()).push((s.last().name@, s.last().status))
    } else {
        selected_views(s.drop_last())
    }
}

/// Entries as fetched, each unselected.
fn selectable(entries: Vec<RevisionEntry>) -> (r: Vec<SelectableRevisionEntry>)
    ensures
        r@.len() == entries@.len(),
        forall|i: int|
            0 <= i < entries@.len() ==> (#[trigger] r@[i]).name@ == entries@[i].name@ && r@[i].status
                == entries@[i].status && !r@[i].selected,
{
    let mut r: Vec<SelectableRevisionEntry> = Vec::new();
    let mut i: usize = 0;
    while i < entries.len()
        invariant
            i <= entries@.len(),
            r@.len() == i,
            forall|j: int|
                0 <= j < i ==> (#[trigger] r@[j]).name@ == entries@[j].name@ && r@[j].status
                    == entries@[j].status && !r@[j].selected,
        decreases entries@.len() - i,
    {
        r.push(SelectableRevisionEntry { name: entries[i].name.clone(), status: entries[i].status, selected: false });
        i = i + 1;
    }
    r
}

} // verus!
