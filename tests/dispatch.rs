use verco::action::ActionKind;
use verco::chord::{resolve, resolve_custom, ChordResolution, CustomAction, CustomResolution, KeyChord};
use verco::plan::Plan;

fn custom(shortcut: &str) -> CustomAction {
    CustomAction { shortcut: shortcut.to_string(), command: "echo".to_string(), args: vec![] }
}

#[test]
fn log_count_chord_resolves() {
    let mut chord = KeyChord::new();
    assert_eq!(chord.push('L'), ChordResolution::Prefix);
    assert_eq!(chord.keys(), &['L']);
    assert_eq!(chord.push('C'), ChordResolution::Matched(ActionKind::LogCount));
    assert!(chord.keys().is_empty());
}

#[test]
fn dead_end_chord_clears() {
    let mut chord = KeyChord::new();
    assert_eq!(chord.push('L'), ChordResolution::Prefix);
    assert_eq!(chord.push('x'), ChordResolution::NoMatch);
    assert!(chord.keys().is_empty());
}

#[test]
fn unknown_first_key_is_no_match_at_once() {
    let mut chord = KeyChord::new();
    assert_eq!(chord.push('z'), ChordResolution::NoMatch);
    assert!(chord.keys().is_empty());
    assert_eq!(chord.push('q'), ChordResolution::Matched(ActionKind::Quit));
}

#[test]
fn chords_are_case_sensitive() {
    assert_eq!(resolve(&['R', 'A']), ChordResolution::Matched(ActionKind::RevertAll));
    assert_eq!(resolve(&['r', 's']), ChordResolution::Matched(ActionKind::RevertSelected));
    assert_eq!(resolve(&['R', 'a']), ChordResolution::NoMatch);
    assert_eq!(resolve(&['l']), ChordResolution::Matched(ActionKind::Log));
    assert_eq!(resolve(&['L']), ChordResolution::Prefix);
}

#[test]
fn every_shortcut_resolves_to_its_kind() {
    let kinds = [
        ActionKind::Help, ActionKind::Quit, ActionKind::Status, ActionKind::Log, ActionKind::LogCount,
        ActionKind::CurrentFullRevision, ActionKind::CurrentDiffAll, ActionKind::CurrentDiffSelected,
        ActionKind::RevisionChanges, ActionKind::RevisionDiffAll, ActionKind::RevisionDiffSelected,
        ActionKind::CommitAll, ActionKind::CommitSelected, ActionKind::Update, ActionKind::Merge,
        ActionKind::RevertAll, ActionKind::RevertSelected, ActionKind::UnresolvedConflicts,
        ActionKind::MergeTakingOther, ActionKind::MergeTakingLocal, ActionKind::Fetch, ActionKind::Pull,
        ActionKind::Push, ActionKind::NewTag, ActionKind::ListBranches, ActionKind::NewBranch,
        ActionKind::DeleteBranch, ActionKind::CustomAction,
    ];
    for (i, k) in kinds.iter().enumerate() {
        assert_eq!(k.index(), i);
        assert_eq!(resolve(&k.shortcut()), ChordResolution::Matched(*k));
        if k.shortcut().len() == 2 {
            assert_eq!(resolve(&k.shortcut()[..1]), ChordResolution::Prefix);
        }
    }
}

#[test]
fn empty_and_long_chords_do_not_match() {
    assert_eq!(resolve(&[]), ChordResolution::NoMatch);
    assert_eq!(resolve(&['L', 'C', 'C']), ChordResolution::NoMatch);
}

#[test]
fn cancel_clears_pending_chord_or_signals_leave() {
    let mut chord = KeyChord::new();
    assert!(!chord.cancel());
    chord.push('b');
    assert!(chord.cancel());
    assert!(chord.keys().is_empty());
}

#[test]
fn custom_shortcuts_resolve_in_order() {
    let actions = vec![custom("ab"), custom("c"), custom("a")];
    assert_eq!(resolve_custom(&actions, &['a']), CustomResolution::Run(2));
    assert_eq!(resolve_custom(&actions, &['a', 'b']), CustomResolution::Run(0));
    assert_eq!(resolve_custom(&actions, &['x']), CustomResolution::NoMatch);
    let actions = vec![custom("ab"), custom("ac")];
    assert_eq!(resolve_custom(&actions, &['a']), CustomResolution::Pending);
    assert_eq!(resolve_custom(&actions, &['a', 'c']), CustomResolution::Run(1));
    assert_eq!(resolve_custom(&actions, &['a', 'd']), CustomResolution::NoMatch);
    assert_eq!(resolve_custom(&[], &['a']), CustomResolution::NoMatch);
}

#[test]
fn plans_and_prompts() {
    assert_eq!(ActionKind::LogCount.plan(), Plan::AskCount);
    assert_eq!(ActionKind::LogCount.prompt(), "logs to show");
    assert_eq!(ActionKind::Status.plan(), Plan::Run);
    assert_eq!(ActionKind::CommitSelected.plan(), Plan::SelectThenAsk);
    assert_eq!(ActionKind::RevisionDiffSelected.plan(), Plan::AskThenSelect);
    assert!(ActionKind::Merge.prompt_uses_target());
    assert!(!ActionKind::CommitAll.prompt_uses_target());
    assert_eq!(ActionKind::Quit.plan(), Plan::Quit);
    assert_eq!(ActionKind::CustomAction.plan(), Plan::Custom);
    assert_eq!(ActionKind::LogCount.name(), "log count");
}

#[test]
fn custom_action_lines() {
    let a = verco::chord::parse_custom_action("b  cargo build\t--release").expect("configured");
    assert_eq!(a.shortcut, "b");
    assert_eq!(a.command, "cargo");
    assert_eq!(a.args, vec!["build".to_string(), "--release".to_string()]);
    let bare = verco::chord::parse_custom_action("t make").expect("configured");
    assert!(bare.args.is_empty());
    assert!(verco::chord::parse_custom_action("lonely").is_none());
    assert!(verco::chord::parse_custom_action("   ").is_none());
}
