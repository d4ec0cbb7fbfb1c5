use vstd::prelude::*;

use crate::action::ActionKind;

verus! {

/// What the front end does, in order, once a chord has chosen an action.
#[derive(Clone, Copy, Debug, PartialEq, Eq, Structural)]
pub enum Plan {
    /// Leave the program.
    Quit,
    /// Show the help text.
    Help,
    /// Run the action at once.
    Run,
    /// Ask for a line of input, then run the action with it.
    Ask,
    /// Ask for a number of entries, then run the action with it.
    AskCount,
    /// Let the user select among the changed files, then run the action.
    Select,
    /// Select among the changed files, then ask for a line, then run.
    SelectThenAsk,
    /// Ask for a revision, select among its changed files, then run.
    AskThenSelect,
    /// Read a custom action's shortcut and run it.
    Custom,
}

pub open spec fn plan_of(k: ActionKind) -> Plan {
    match k {
        ActionKind::Quit => Plan::Quit,
        ActionKind::Help => Plan::Help,
        ActionKind::LogCount => Plan::AskCount,
        ActionKind::RevisionChanges | ActionKind::RevisionDiffAll | ActionKind::CommitAll
        | ActionKind::Update | ActionKind::Merge | ActionKind::NewTag | ActionKind::NewBranch
        | ActionKind::DeleteBranch => Plan::Ask,
        ActionKind::CurrentDiffSelected | ActionKind::RevertSelected => Plan::Select,
        ActionKind::CommitSelected => Plan::SelectThenAsk,
        ActionKind::RevisionDiffSelected => Plan::AskThenSelect,
        ActionKind::CustomAction => Plan::Custom,
        _ => Plan::Run,
    }
}

/// Kinds whose prompt starts with the target picked from the previous result.
pub open spec fn prompt_uses_target(k: ActionKind) -> bool {
    match k {
        ActionKind::RevisionChanges | ActionKind::RevisionDiffAll | ActionKind::RevisionDiffSelected
        | ActionKind::Update | ActionKind::Merge | ActionKind::DeleteBranch => true,
        _ => false,
    }
}

pub open spec fn prompt_of(k: ActionKind) -> Seq<char> {
    match k {
        ActionKind::LogCount => "logs to show"@,
        ActionKind::RevisionChanges => "show changes from"@,
        ActionKind::RevisionDiffAll | ActionKind::RevisionDiffSelected => "show diff from"@,
        ActionKind::CommitAll | ActionKind::CommitSelected => "commit message"@,
        ActionKind::Update => "update to"@,
        ActionKind::Merge => "merge with"@,
        ActionKind::NewTag => "new tag name"@,
        ActionKind::NewBranch => "new branch name"@,
        ActionKind::DeleteBranch => "branch to delete"@,
        _ => ""@,
    }
}

impl ActionKind {
    /// The steps that carry out this action.
    pub fn plan(self) -> (r: Plan)
        ensures
            r == plan_of(self),
    {
        match self {
            ActionKind::Quit => Plan::Quit,
            ActionKind::Help => Plan::Help,
            ActionKind::LogCount => Plan::AskCount,
            ActionKind::RevisionChanges | ActionKind::RevisionDiffAll | ActionKind::CommitAll
            | ActionKind::Update | ActionKind::Merge | ActionKind::NewTag | ActionKind::NewBranch
            | ActionKind::DeleteBranch => Plan::Ask,
            ActionKind::CurrentDiffSelected | ActionKind::RevertSelected => Plan::Select,
            ActionKind::CommitSelected => Plan::SelectThenAsk,
            ActionKind::RevisionDiffSelected => Plan::AskThenSelect,
            ActionKind::CustomAction => Plan::Custom,
            _ => Plan::Run,
        }
    }

    /// Whether the prompt of this action starts with the previous target.
    pub fn prompt_uses_target(self) -> (r: bool)
        ensures
            r == prompt_uses_target(self),
    {
        match self {
            ActionKind::RevisionChanges | ActionKind::RevisionDiffAll | ActionKind::RevisionDiffSelected
            | ActionKind::Update | ActionKind::Merge | ActionKind::DeleteBranch => true,
            _ => false,
        }
    }

    /// The prompt shown when this action asks for input (empty when it never does).
    pub fn prompt(self) -> (r: &'static str)
        ensures
            r@ == prompt_of(self),
    {
        match self {
            ActionKind::LogCount => "logs to show",
            ActionKind::RevisionChanges => "show changes from",
            ActionKind::RevisionDiffAll | ActionKind::RevisionDiffSelected => "show diff from",
            ActionKind::CommitAll | ActionKind::CommitSelected => "commit message",
            ActionKind::Update => "update to",
            ActionKind::Merge => "merge with",
            ActionKind::NewTag => "new tag name",
            ActionKind::NewBranch => "new branch name",
            ActionKind::DeleteBranch => "branch to delete",
            _ => "",
        }
    }
}

/// Every action that asks for input has a prompt to show.
pub proof fn law_asking_actions_have_prompts(k: ActionKind)
    ensures
        plan_of(k) is Ask || plan_of(k) is AskCount || plan_of(k) is SelectThenAsk || plan_of(k) is AskThenSelect
            ==> prompt_of(k).len() > 0,
        prompt_uses_target(k) ==> plan_of(k) is Ask || plan_of(k) is AskThenSelect,
{
    reveal_strlit("logs to show");
    reveal_strlit("show changes from");
    reveal_strlit("show diff from");
    reveal_strlit("commit message");
    reveal_strlit("update to");
    reveal_strlit("merge with");
    reveal_strlit("new tag name");
    reveal_strlit("new branch name");
    reveal_strlit("branch to delete");
}

} // verus!
