use vstd::prelude::*;
use vstd::string::StringExecFns;

use crate::action::{begin_spec, finish_spec, store_spec, ActionKind, ActionResult, ResultCache};
use crate::chord::{
    custom_resolves_to, lemma_resolution_of, resolution_of, resolve_custom, shortcuts_of, ChordResolution,
    CustomAction, CustomResolution, KeyChord,
};
use crate::key::{navigation, navigation_of, Key, Navigation};
use crate::ui::RESERVED_LINES_COUNT;
use crate::input::{count_read, parse_count, trimmed};
use crate::mode::revision_details::RevisionEntry;
use crate::output::Output;

verus! {

/// What the front end does after a key.
#[derive(Clone, Copy, Debug, PartialEq, Eq, Structural)]
pub enum Command {
    /// Redraw the chord at the bottom of the screen.
    ShowChord,
    /// Redraw the output, which scrolled.
    Redraw,
    /// Leave the program.
    Quit,
    /// Carry out the plan of this action, which is now the current one.
    Start(ActionKind),
}

/// How the header presents the current action.
#[derive(Clone, Copy, Debug, PartialEq, Eq, Structural)]
pub enum HeaderKind {
    Success,
    Failure,
    Waiting,
}

/// What the front end does after a key while reading a custom shortcut.
#[derive(Clone, Copy, Debug, PartialEq, Eq, Structural)]
pub enum CustomStep {
    /// The user cancelled; the previous result is shown again.
    Cancelled,
    /// Run the custom action at this index.
    Run(usize),
    /// The chord begins some shortcut: read another key.
    Wait,
    /// No shortcut can match any more.
    NoMatch,
}

/// The message shown when no custom action is configured.
pub open spec fn no_custom_actions_text() -> Seq<char> {
    "no commands available\ncreate custom actions by placing them inside '.verco/custom_actions.txt'"@
}

/// One line per custom action: its shortcut, a tab, its command and its
/// arguments each after a space.
pub open spec fn custom_listing(actions: Seq<CustomAction>) -> Seq<char>
    decreases actions.len(),
{
    if actions.len() == 0 {
        Seq::empty()
    } else {
        custom_listing(actions.drop_last()) + custom_line(actions.last())
    }
}

pub open spec fn custom_line(a: CustomAction) -> Seq<char> {
    a.shortcut@ + seq!['\t'] + a.command@ + args_text(a.args@) + seq!['\n']
}

pub open spec fn args_text(args: Seq<String>) -> Seq<char>
    decreases args.len(),
{
    if args.len() == 0 {
        Seq::empty()
    } else {
        args_text(args.drop_last()) + seq![' '] + args.last()@
    }
}

fn append_str(v: &mut Vec<char>, s: &str)
    ensures
        final(v)@ == old(v)@ + s@,
{
    let mut chars = crate::text::chars_of(s);
    v.append(&mut chars);
}

fn listing_of(actions: &[CustomAction]) -> (r: String)
    ensures
        r@ == custom_listing(actions@),
{
    let mut v: Vec<char> = Vec::new();
    let mut i: usize = 0;
    proof {
        assert(actions@.take(0) =~= Seq::<CustomAction>::empty());
    }
    while i < actions.len()
        invariant
            i <= actions@.len(),
            v@ == custom_listing(actions@.take(i as int)),
        decreases actions@.len() - i,
    {
        let a = &actions[i];
        let ghost before = v@;
        append_str(&mut v, a.shortcut.as_str());
        v.push('\t');
        append_str(&mut v, a.command.as_str());
        let mut j: usize = 0;
        proof {
            assert(a.args@.take(0) =~= Seq::<String>::empty());
            assert(v@ =~= before + a.shortcut@ + seq!['\t'] + a.command@ + args_text(a.args@.take(0)));
        }
        while j < a.args.len()
            invariant
                j <= a.args@.len(),
                v@ == before + a.shortcut@ + seq!['\t'] + a.command@ + args_text(a.args@.take(j as int)),
            decreases a.args@.len() - j,
        {
            v.push(' ');
            append_str(&mut v, a.args[j].as_str());
            proof {
                assert(a.args@.take(j + 1).drop_last() =~= a.args@.take(j as int));
                assert(v@ =~= before + a.shortcut@ + seq!['\t'] + a.command@ + args_text(a.args@.take(j + 1)));
            }
            j = j + 1;
        }
        v.push('\n');
        proof {
            assert(a.args@.take(a.args@.len() as int) =~= a.args@);
            assert(actions@.take(i + 1).drop_last() =~= actions@.take(i as int));
            assert(v@ =~= custom_listing(actions@.take(i + 1)));
        }
        i = i + 1;
    }
    proof {
        assert(actions@.take(actions@.len() as int) =~= actions@);
    }
    crate::text::string_of(v.as_slice())
}

/// Whether a key is Esc or Ctrl-C, which cancel a chord or leave.
pub open spec fn is_cancel(key: Key) -> bool {
    key == Key::Esc || key == Key::Ctrl('c')
}

/// The command, current action and previous action after a chord resolved
/// to `res`: a completed shortcut starts its action (help keeps the previous
/// action, quit changes nothing); anything else only redraws the chord.
pub open spec fn chord_outcome(res: ChordResolution, current: ActionKind, previous: ActionKind) -> (
    Command,
    ActionKind,
    ActionKind,
) {
    match res {
        ChordResolution::Matched(k) => if k == ActionKind::Quit {
            (Command::Quit, current, previous)
        } else if k == ActionKind::Help {
            (Command::Start(k), k, previous)
        } else {
            (Command::Start(k), k, current)
        },
        _ => (Command::ShowChord, current, previous),
    }
}

/// The state of the chord-driven front end: the current and previous
/// actions, the chord being typed, the output on screen and the results.
pub struct Tui {
    previous_action_kind: ActionKind,
    current_action_kind: ActionKind,
    key_chord: KeyChord,
    output: Output,
    cache: ResultCache,
    viewport_size: (u16, u16),
}

impl Tui {
    pub closed spec fn wf(&self) -> bool {
        self.cache.wf()
    }

    pub closed spec fn current_spec(&self) -> ActionKind {
        self.current_action_kind
    }

    pub closed spec fn previous_spec(&self) -> ActionKind {
        self.previous_action_kind
    }

    pub closed spec fn chord_spec(&self) -> Seq<char> {
        self.key_chord.keys_spec()
    }

    pub closed spec fn output_spec(&self) -> Output {
        self.output
    }

    pub closed spec fn cache_spec(&self) -> crate::action::CacheState {
        self.cache@
    }

    pub closed spec fn viewport(&self) -> (u16, u16) {
        self.viewport_size
    }

    /// Starts on the help text, with no chord and no results yet.
    pub fn new(viewport_size: (u16, u16)) -> (r: Self)
        ensures
            r.wf(),
            r.current_spec() == ActionKind::Help,
            r.previous_spec() == ActionKind::Help,
            r.chord_spec().len() == 0,
            r.output_spec().text_spec().len() == 0,
            r.cache_spec().running.is_empty(),
            r.viewport() == viewport_size,
    {
        Tui {
            previous_action_kind: ActionKind::Help,
            current_action_kind: ActionKind::Help,
            key_chord: KeyChord::new(),
            output: Output::new(),
            cache: ResultCache::new(),
            viewport_size,
        }
    }

    pub fn current_action_kind(&self) -> (r: ActionKind)
        ensures
            r == self.current_spec(),
    {
        self.current_action_kind
    }

    pub fn previous_action_kind(&self) -> (r: ActionKind)
        ensures
            r == self.previous_spec(),
    {
        self.previous_action_kind
    }

    pub fn key_chord(&self) -> (r: &[char])
        ensures
            r@ == self.chord_spec(),
    {
        self.key_chord.keys()
    }

    pub fn output(&self) -> (r: &Output)
        ensures
            *r == self.output_spec(),
    {
        &self.output
    }

    pub fn viewport_size(&self) -> (r: (u16, u16))
        ensures
            r == self.viewport(),
    {
        self.viewport_size
    }

    /// The latest result of `kind`.
    pub fn cached_result(&self, kind: ActionKind) -> (r: &ActionResult)
        requires
            self.wf(),
        ensures
            r@ == self.cache_spec().results[kind],
    {
        self.cache.get(kind)
    }

    /// Takes a new terminal size.
    pub fn on_resize(&mut self, viewport_size: (u16, u16))
        ensures
            final(self).viewport() == viewport_size,
            final(self).wf() == old(self).wf(),
            final(self).output_spec() == old(self).output_spec(),
            final(self).current_spec() == old(self).current_spec(),
            final(self).cache_spec() == old(self).cache_spec(),
    {
        self.viewport_size = viewport_size;
    }

    /// Handles a key of the main loop. Esc or Ctrl-C clears a pending chord,
    /// or leaves when there is none. With no chord pending, a navigation key
    /// scrolls the output. Any other key extends the chord: a completed
    /// shortcut starts its action (or leaves, for quit); a dead end clears it.
    pub fn on_key(&mut self, key: Key) -> (r: Command)
        requires
            old(self).wf(),
        ensures
            final(self).wf(),
            final(self).cache_spec() == old(self).cache_spec(),
            final(self).viewport() == old(self).viewport(),
            is_cancel(key) ==> {
                &&& final(self).chord_spec().len() == 0
                &&& r == if old(self).chord_spec().len() > 0 { Command::ShowChord } else { Command::Quit }
                &&& final(self).output_spec() == old(self).output_spec()
                &&& final(self).current_spec() == old(self).current_spec()
                &&& final(self).previous_spec() == old(self).previous_spec()
            },
            !is_cancel(key) && old(self).chord_spec().len() == 0 && navigation_of(key) != Navigation::Stay ==> {
                &&& r == Command::Redraw
                &&& final(self).chord_spec().len() == 0
                &&& final(self).current_spec() == old(self).current_spec()
                &&& final(self).previous_spec() == old(self).previous_spec()
                &&& final(self).output_spec().text_spec() == old(self).output_spec().text_spec()
                &&& final(self).output_spec().scroll_spec() == crate::key::min(
                    crate::key::moved(
                        old(self).output_spec().scroll_spec() as int,
                        crate::mode::revision_details::available_height(old(self).viewport().1),
                        navigation_of(key),
                    ),
                    crate::output::max_scroll(
                        old(self).output_spec().line_count_spec() as int,
                        crate::mode::revision_details::available_height(old(self).viewport().1),
                    ),
                )
            },
            !is_cancel(key) && !(old(self).chord_spec().len() == 0 && navigation_of(key) != Navigation::Stay)
                ==> {
                let chord = match key {
                    Key::Char(c) => old(self).chord_spec().push(c),
                    _ => old(self).chord_spec(),
                };
                &&& final(self).output_spec() == old(self).output_spec()
                &&& final(self).chord_spec() == if resolution_of(chord) is Prefix {
                    chord
                } else {
                    Seq::<char>::empty()
                }
                &&& (r, final(self).current_spec(), final(self).previous_spec()) == chord_outcome(
                    resolution_of(chord),
                    old(self).current_spec(),
                    old(self).previous_spec(),
                )
            },
    {
        match key {
            Key::Esc | Key::Ctrl('c') => {
                if self.key_chord.cancel() {
                    return Command::ShowChord;
                } else {
                    return Command::Quit;
                }
            },
            _ => {},
        }
        if self.key_chord.keys().len() == 0 {
            match navigation(key) {
                Navigation::Stay => {},
                _ => {
                    let height = (self.viewport_size.1 as usize).saturating_sub(RESERVED_LINES_COUNT);
                    self.output.on_key(height, key);
                    return Command::Redraw;
                },
            }
        }
        let ghost chord = match key {
            Key::Char(c) => self.key_chord.keys_spec().push(c),
            _ => self.key_chord.keys_spec(),
        };
        let res = match key {
            Key::Char(c) => self.key_chord.push(c),
            _ => self.key_chord.resolve_current(),
        };
        proof {
            lemma_resolution_of(chord, res);
        }
        let cmd = match res {
            ChordResolution::Matched(ActionKind::Quit) => Command::Quit,
            ChordResolution::Matched(ActionKind::Help) => {
                self.current_action_kind = ActionKind::Help;
                Command::Start(ActionKind::Help)
            },
            ChordResolution::Matched(k) => {
                self.begin_action(k);
                Command::Start(k)
            },
            _ => Command::ShowChord,
        };
        proof {
            assert((cmd, self.current_action_kind, self.previous_action_kind) == chord_outcome(
                res,
                old(self).current_spec(),
                old(self).previous_spec(),
            ));
        }
        cmd
    }

    /// Handles a key while a custom action's shortcut is read: Esc or
    /// Ctrl-C cancel; otherwise the key extends the chord, which then runs
    /// the first action whose shortcut it has typed, waits while it begins
    /// one, or ends with no match.
    pub fn on_custom_key(&mut self, actions: &[CustomAction], key: Key) -> (r: CustomStep)
        requires
            old(self).wf(),
        ensures
            final(self).wf(),
            is_cancel(key) ==> {
                &&& r == CustomStep::Cancelled
                &&& final(self).chord_spec().len() == 0
                &&& final(self).current_spec() == old(self).previous_spec()
                &&& final(self).output_spec().text_spec() == old(self).cache_spec().results[old(self).previous_spec()].1
            },
            !is_cancel(key) ==> {
                let chord = match key {
                    Key::Char(c) => old(self).chord_spec().push(c),
                    _ => old(self).chord_spec(),
                };
                &&& final(self).current_spec() == old(self).current_spec()
                &&& final(self).output_spec() == old(self).output_spec()
                &&& match r {
                    CustomStep::Run(i) => custom_resolves_to(shortcuts_of(actions@), chord, CustomResolution::Run(i))
                        && final(self).chord_spec().len() == 0,
                    CustomStep::Wait => custom_resolves_to(shortcuts_of(actions@), chord, CustomResolution::Pending)
                        && final(self).chord_spec() == chord,
                    CustomStep::NoMatch => custom_resolves_to(
                        shortcuts_of(actions@),
                        chord,
                        CustomResolution::NoMatch,
                    ) && final(self).chord_spec().len() == 0,
                    CustomStep::Cancelled => false,
                }
            },
    {
        match key {
            Key::Esc | Key::Ctrl('c') => {
                self.key_chord.clear();
                self.show_previous_action_result();
                return CustomStep::Cancelled;
            },
            Key::Char(c) => self.key_chord.append(c),
            _ => {},
        }
        match resolve_custom(actions, self.key_chord.keys()) {
            CustomResolution::Run(i) => {
                self.key_chord.clear();
                CustomStep::Run(i)
            },
            CustomResolution::Pending => CustomStep::Wait,
            CustomResolution::NoMatch => {
                self.key_chord.clear();
                CustomStep::NoMatch
            },
        }
    }

    /// Takes a prompt's answer: a cancelled prompt brings back the previous
    /// action's result.
    pub fn answered(&mut self, answer: Option<String>) -> (r: Option<String>)
        requires
            old(self).wf(),
        ensures
            final(self).wf(),
            r == answer,
            answer is Some ==> *final(self) == *old(self),
            answer is None ==> final(self).current_spec() == old(self).previous_spec()
                && final(self).output_spec().text_spec() == old(self).cache_spec().results[old(self).previous_spec()].1
                && final(self).cache_spec() == old(self).cache_spec(),
    {
        if answer.is_none() {
            self.show_previous_action_result();
        }
        answer
    }

    /// Takes the files offered for selection: a failure to list them is
    /// shown as an error, an empty list as "nothing to select"; otherwise
    /// they are handed back for the user to select from.
    pub fn offer_selection(&mut self, fetched: Result<Vec<RevisionEntry>, String>) -> (r: Option<Vec<RevisionEntry>>)
        requires
            old(self).wf(),
        ensures
            final(self).wf(),
            final(self).current_spec() == old(self).current_spec(),
            final(self).previous_spec() == old(self).previous_spec(),
            match fetched {
                Err(e) => r is None && final(self).cache_spec() == store_spec(
                    old(self).cache_spec(),
                    old(self).current_spec(),
                    (false, e@),
                ) && final(self).output_spec().text_spec() == e@,
                Ok(v) => if v@.len() == 0 {
                    r is None && final(self).cache_spec() == store_spec(
                        old(self).cache_spec(),
                        old(self).current_spec(),
                        (false, "nothing to select"@),
                    ) && final(self).output_spec().text_spec() == "nothing to select"@
                } else {
                    r == Some(v) && *final(self) == *old(self)
                },
            },
    {
        match fetched {
            Err(e) => {
                self.show(ActionResult::from_err(e));
                None
            },
            Ok(v) => {
                if v.len() == 0 {
                    self.show_empty_entries();
                    None
                } else {
                    Some(v)
                }
            },
        }
    }

    /// Takes the outcome of a selection: a cancelled one brings back the
    /// previous action's result.
    pub fn selected(&mut self, picked: Option<Vec<RevisionEntry>>) -> (r: Option<Vec<RevisionEntry>>)
        requires
            old(self).wf(),
        ensures
            final(self).wf(),
            r == picked,
            picked is Some ==> *final(self) == *old(self),
            picked is None ==> final(self).current_spec() == old(self).previous_spec()
                && final(self).output_spec().text_spec() == old(self).cache_spec().results[old(self).previous_spec()].1,
    {
        if picked.is_none() {
            self.show_previous_action_result();
        }
        picked
    }

    /// Reads the count typed for a log: a text that is no count is reported
    /// as an error and nothing runs.
    pub fn count_answer(&mut self, input: &str) -> (r: Option<usize>)
        requires
            old(self).wf(),
        ensures
            final(self).wf(),
            count_read(trimmed(input@), r),
            final(self).current_spec() == old(self).current_spec(),
            final(self).previous_spec() == old(self).previous_spec(),
            r is Some ==> *final(self) == *old(self),
            r is None ==> final(self).cache_spec() == store_spec(
                old(self).cache_spec(),
                old(self).current_spec(),
                (false, "could not parse a number from "@ + input@),
            ) && final(self).output_spec().text_spec() == "could not parse a number from "@ + input@,
    {
        let r = parse_count(input);
        if r.is_none() {
            self.show_count_error(input);
        }
        r
    }

    /// Shows the configured custom actions, or explains how to configure
    /// some when there are none.
    pub fn show_custom_actions(&mut self, actions: &[CustomAction])
        requires
            old(self).wf(),
        ensures
            final(self).wf(),
            final(self).current_spec() == old(self).current_spec(),
            final(self).previous_spec() == old(self).previous_spec(),
            final(self).chord_spec() == old(self).chord_spec(),
            final(self).cache_spec() == store_spec(
                old(self).cache_spec(),
                old(self).current_spec(),
                if actions@.len() == 0 {
                    (false, no_custom_actions_text())
                } else {
                    (true, custom_listing(actions@))
                },
            ),
    {
        if actions.len() == 0 {
            let text = String::from_str(
                "no commands available\ncreate custom actions by placing them inside '.verco/custom_actions.txt'",
            );
            self.show(ActionResult::from_err(text));
        } else {
            let text = listing_of(actions);
            self.show(ActionResult::from_ok(text));
        }
    }

    /// Reports that a selection-based action found no entries to select.
    pub fn show_empty_entries(&mut self)
        requires
            old(self).wf(),
        ensures
            final(self).wf(),
            final(self).cache_spec() == store_spec(
                old(self).cache_spec(),
                old(self).current_spec(),
                (false, "nothing to select"@),
            ),
            final(self).output_spec().text_spec() == "nothing to select"@,
            final(self).current_spec() == old(self).current_spec(),
            final(self).previous_spec() == old(self).previous_spec(),
            final(self).chord_spec() == old(self).chord_spec(),
            final(self).viewport() == old(self).viewport(),
    {
        let text = String::from_str("nothing to select");
        self.show(ActionResult::from_err(text));
    }

    /// Reports that the count typed at a prompt is not a number.
    pub fn show_count_error(&mut self, input: &str)
        requires
            old(self).wf(),
        ensures
            final(self).wf(),
            final(self).cache_spec() == store_spec(
                old(self).cache_spec(),
                old(self).current_spec(),
                (false, "could not parse a number from "@ + input@),
            ),
            final(self).output_spec().text_spec() == "could not parse a number from "@ + input@,
            final(self).current_spec() == old(self).current_spec(),
            final(self).previous_spec() == old(self).previous_spec(),
            final(self).chord_spec() == old(self).chord_spec(),
            final(self).viewport() == old(self).viewport(),
    {
        let text = String::from_str("could not parse a number from ").concat(input);
        self.show(ActionResult::from_err(text));
    }

    /// Makes `kind` the current action, remembering the one before it.
    pub fn begin_action(&mut self, kind: ActionKind)
        ensures
            final(self).current_spec() == kind,
            final(self).previous_spec() == old(self).current_spec(),
            final(self).wf() == old(self).wf(),
            final(self).cache_spec() == old(self).cache_spec(),
            final(self).output_spec() == old(self).output_spec(),
            final(self).chord_spec() == old(self).chord_spec(),
            final(self).viewport() == old(self).viewport(),
    {
        self.previous_action_kind = self.current_action_kind;
        self.current_action_kind = kind;
    }

    /// Goes back to the previous action after a cancelled prompt or
    /// selection, and shows its latest result again.
    pub fn show_previous_action_result(&mut self)
        requires
            old(self).wf(),
        ensures
            final(self).wf(),
            final(self).current_spec() == old(self).previous_spec(),
            final(self).output_spec().text_spec() == old(self).cache_spec().results[old(self).previous_spec()].1,
            final(self).output_spec().scroll_spec() == 0,
            final(self).cache_spec() == old(self).cache_spec(),
            final(self).chord_spec() == old(self).chord_spec(),
            final(self).viewport() == old(self).viewport(),
    {
        self.current_action_kind = self.previous_action_kind;
        let text = self.cache.get(self.current_action_kind).output.clone();
        self.output.set(text);
    }

    /// Asks to run the current action in a worker and shows its latest
    /// result meanwhile. Returns whether the worker may start: not while one
    /// for the same kind is still running.
    pub fn start_run(&mut self) -> (r: bool)
        requires
            old(self).wf(),
        ensures
            final(self).wf(),
            (r, final(self).cache_spec()) == begin_spec(old(self).cache_spec(), old(self).current_spec()),
            final(self).current_spec() == old(self).current_spec(),
            final(self).output_spec().text_spec() == old(self).cache_spec().results[old(self).current_spec()].1,
            final(self).previous_spec() == old(self).previous_spec(),
            final(self).chord_spec() == old(self).chord_spec(),
            final(self).viewport() == old(self).viewport(),
    {
        let granted = self.cache.try_begin(self.current_action_kind);
        let text = self.cache.get(self.current_action_kind).output.clone();
        self.output.set(text);
        granted
    }

    /// Takes what a worker for `kind` delivered; when `kind` is the current
    /// action its result is shown at once, and true is returned.
    pub fn complete(&mut self, kind: ActionKind, result: ActionResult) -> (r: bool)
        requires
            old(self).wf(),
        ensures
            final(self).wf(),
            final(self).cache_spec() == finish_spec(old(self).cache_spec(), kind, result@),
            final(self).current_spec() == old(self).current_spec(),
            r == (kind == old(self).current_spec()),
            r ==> final(self).output_spec().text_spec() == result@.1 && final(self).output_spec().scroll_spec() == 0,
            !r ==> final(self).output_spec() == old(self).output_spec(),
            final(self).previous_spec() == old(self).previous_spec(),
            final(self).chord_spec() == old(self).chord_spec(),
            final(self).viewport() == old(self).viewport(),
    {
        let shown = kind == self.current_action_kind;
        if shown {
            let text = result.output.clone();
            self.cache.finish(kind, result);
            self.output.set(text);
        } else {
            self.cache.finish(kind, result);
        }
        shown
    }

    /// Shows a result of the current action that was computed on the spot
    /// (help text, an error found before running anything) and keeps it.
    pub fn show(&mut self, result: ActionResult)
        requires
            old(self).wf(),
        ensures
            final(self).wf(),
            final(self).cache_spec() == store_spec(old(self).cache_spec(), old(self).current_spec(), result@),
            final(self).current_spec() == old(self).current_spec(),
            final(self).output_spec().text_spec() == result@.1,
            final(self).output_spec().scroll_spec() == 0,
            final(self).previous_spec() == old(self).previous_spec(),
            final(self).chord_spec() == old(self).chord_spec(),
            final(self).viewport() == old(self).viewport(),
    {
        let text = result.output.clone();
        self.cache.set(self.current_action_kind, result);
        self.output.set(text);
    }

    /// How the header presents the current action: waiting while its worker
    /// runs, else by the success of its latest result.
    pub fn header_kind(&self) -> (r: HeaderKind)
        requires
            self.wf(),
        ensures
            r == if self.cache_spec().running.contains(self.current_spec()) {
                HeaderKind::Waiting
            } else if self.cache_spec().results[self.current_spec()].0 {
                HeaderKind::Success
            } else {
                HeaderKind::Failure
            },
    {
        if self.cache.is_running(self.current_action_kind) {
            HeaderKind::Waiting
        } else if self.cache.get(self.current_action_kind).success {
            HeaderKind::Success
        } else {
            HeaderKind::Failure
        }
    }
}

} // verus!
