use vstd::prelude::*;

verus! {

/// Every operation the front end can invoke.
#[derive(Clone, Copy, Debug, PartialEq, Eq, Structural, Hash)]
pub enum ActionKind {
    Help,
    Quit,
    Status,
    Log,
    LogCount,
    CurrentFullRevision,
    CurrentDiffAll,
    CurrentDiffSelected,
    RevisionChanges,
    RevisionDiffAll,
    RevisionDiffSelected,
    CommitAll,
    CommitSelected,
    Update,
    Merge,
    RevertAll,
    RevertSelected,
    UnresolvedConflicts,
    MergeTakingOther,
    MergeTakingLocal,
    Fetch,
    Pull,
    Push,
    NewTag,
    ListBranches,
    NewBranch,
    DeleteBranch,
    CustomAction,
}

/// Number of action kinds.
pub const ACTION_KIND_COUNT: usize = 28;

/// Position of each kind in a table with one slot per kind.
pub open spec fn index_of(k: ActionKind) -> nat {
    match k {
        ActionKind::Help => 0,
        ActionKind::Quit => 1,
        ActionKind::Status => 2,
        ActionKind::Log => 3,
        ActionKind::LogCount => 4,
        ActionKind::CurrentFullRevision => 5,
        ActionKind::CurrentDiffAll => 6,
        ActionKind::CurrentDiffSelected => 7,
        ActionKind::RevisionChanges => 8,
        ActionKind::RevisionDiffAll => 9,
        ActionKind::RevisionDiffSelected => 10,
        ActionKind::CommitAll => 11,
        ActionKind::CommitSelected => 12,
        ActionKind::Update => 13,
        ActionKind::Merge => 14,
        ActionKind::RevertAll => 15,
        ActionKind::RevertSelected => 16,
        ActionKind::UnresolvedConflicts => 17,
        ActionKind::MergeTakingOther => 18,
        ActionKind::MergeTakingLocal => 19,
        ActionKind::Fetch => 20,
        ActionKind::Pull => 21,
        ActionKind::Push => 22,
        ActionKind::NewTag => 23,
        ActionKind::ListBranches => 24,
        ActionKind::NewBranch => 25,
        ActionKind::DeleteBranch => 26,
        ActionKind::CustomAction => 27,
    }
}

/// The kind in slot `i` of a table with one slot per kind.
pub open spec fn kind_at(i: nat) -> ActionKind {
    if i == 0 { ActionKind::Help }
    else if i == 1 { ActionKind::Quit }
    else if i == 2 { ActionKind::Status }
    else if i == 3 { ActionKind::Log }
    else if i == 4 { ActionKind::LogCount }
    else if i == 5 { ActionKind::CurrentFullRevision }
    else if i == 6 { ActionKind::CurrentDiffAll }
    else if i == 7 { ActionKind::CurrentDiffSelected }
    else if i == 8 { ActionKind::RevisionChanges }
    else if i == 9 { ActionKind::RevisionDiffAll }
    else if i == 10 { ActionKind::RevisionDiffSelected }
    else if i == 11 { ActionKind::CommitAll }
    else if i == 12 { ActionKind::CommitSelected }
    else if i == 13 { ActionKind::Update }
    else if i == 14 { ActionKind::Merge }
    else if i == 15 { ActionKind::RevertAll }
    else if i == 16 { ActionKind::RevertSelected }
    else if i == 17 { ActionKind::UnresolvedConflicts }
    else if i == 18 { ActionKind::MergeTakingOther }
    else if i == 19 { ActionKind::MergeTakingLocal }
    else if i == 20 { ActionKind::Fetch }
    else if i == 21 { ActionKind::Pull }
    else if i == 22 { ActionKind::Push }
    else if i == 23 { ActionKind::NewTag }
    else if i == 24 { ActionKind::ListBranches }
    else if i == 25 { ActionKind::NewBranch }
    else if i == 26 { ActionKind::DeleteBranch }
    else { ActionKind::CustomAction }
}

pub proof fn lemma_index_of(k: ActionKind)
    ensures
        index_of(k) < ACTION_KIND_COUNT,
        kind_at(index_of(k)) == k,
{
}

/// Two kinds share a slot only when they are the same kind.
pub proof fn lemma_index_of_injective(a: ActionKind, b: ActionKind)
    ensures
        index_of(a) == index_of(b) <==> a == b,
{
    lemma_index_of(a);
    lemma_index_of(b);
}

/// The name shown in the header and in the help text.
pub open spec fn name_of(k: ActionKind) -> Seq<char> {
    match k {
        ActionKind::Help => "help"@,
        ActionKind::Quit => "quit"@,
        ActionKind::Status => "status"@,
        ActionKind::Log => "log"@,
        ActionKind::LogCount => "log count"@,
        ActionKind::CurrentFullRevision => "current full revision"@,
        ActionKind::CurrentDiffAll => "current diff all"@,
        ActionKind::CurrentDiffSelected => "current diff selected"@,
        ActionKind::RevisionChanges => "revision changes"@,
        ActionKind::RevisionDiffAll => "revision diff all"@,
        ActionKind::RevisionDiffSelected => "revision diff selected"@,
        ActionKind::CommitAll => "commit all"@,
        ActionKind::CommitSelected => "commit selected"@,
        ActionKind::Update => "update"@,
        ActionKind::Merge => "merge"@,
        ActionKind::RevertAll => "revert all"@,
        ActionKind::RevertSelected => "revert selected"@,
        ActionKind::UnresolvedConflicts => "unresolved conflicts"@,
        ActionKind::MergeTakingOther => "merge taking other"@,
        ActionKind::MergeTakingLocal => "merge taking local"@,
        ActionKind::Fetch => "fetch"@,
        ActionKind::Pull => "pull"@,
        ActionKind::Push => "push"@,
        ActionKind::NewTag => "new tag"@,
        ActionKind::ListBranches => "list branches"@,
        ActionKind::NewBranch => "new branch"@,
        ActionKind::DeleteBranch => "delete branch"@,
        ActionKind::CustomAction => "custom action"@,
    }
}

impl ActionKind {
    pub fn index(self) -> (r: usize)
        ensures
            r == index_of(self),
            r < ACTION_KIND_COUNT,
    {
        match self {
            ActionKind::Help => 0,
            ActionKind::Quit => 1,
            ActionKind::Status => 2,
            ActionKind::Log => 3,
            ActionKind::LogCount => 4,
            ActionKind::CurrentFullRevision => 5,
            ActionKind::CurrentDiffAll => 6,
            ActionKind::CurrentDiffSelected => 7,
            ActionKind::RevisionChanges => 8,
            ActionKind::RevisionDiffAll => 9,
            ActionKind::RevisionDiffSelected => 10,
            ActionKind::CommitAll => 11,
            ActionKind::CommitSelected => 12,
            ActionKind::Update => 13,
            ActionKind::Merge => 14,
            ActionKind::RevertAll => 15,
            ActionKind::RevertSelected => 16,
            ActionKind::UnresolvedConflicts => 17,
            ActionKind::MergeTakingOther => 18,
            ActionKind::MergeTakingLocal => 19,
            ActionKind::Fetch => 20,
            ActionKind::Pull => 21,
            ActionKind::Push => 22,
            ActionKind::NewTag => 23,
            ActionKind::ListBranches => 24,
            ActionKind::NewBranch => 25,
            ActionKind::DeleteBranch => 26,
            ActionKind::CustomAction => 27,
        }
    }

    pub fn name(self) -> (r: &'static str)
        ensures
            r@ == name_of(self),
    {
        match self {
            ActionKind::Help => "help",
            ActionKind::Quit => "quit",
            ActionKind::Status => "status",
            ActionKind::Log => "log",
            ActionKind::LogCount => "log count",
            ActionKind::CurrentFullRevision => "current full revision",
            ActionKind::CurrentDiffAll => "current diff all",
            ActionKind::CurrentDiffSelected => "current diff selected",
            ActionKind::RevisionChanges => "revision changes",
            ActionKind::RevisionDiffAll => "revision diff all",
            ActionKind::RevisionDiffSelected => "revision diff selected",
            ActionKind::CommitAll => "commit all",
            ActionKind::CommitSelected => "commit selected",
            ActionKind::Update => "update",
            ActionKind::Merge => "merge",
            ActionKind::RevertAll => "revert all",
            ActionKind::RevertSelected => "revert selected",
            ActionKind::UnresolvedConflicts => "unresolved conflicts",
            ActionKind::MergeTakingOther => "merge taking other",
            ActionKind::MergeTakingLocal => "merge taking local",
            ActionKind::Fetch => "fetch",
            ActionKind::Pull => "pull",
            ActionKind::Push => "push",
            ActionKind::NewTag => "new tag",
            ActionKind::ListBranches => "list branches",
            ActionKind::NewBranch => "new branch",
            ActionKind::DeleteBranch => "delete branch",
            ActionKind::CustomAction => "custom action",
        }
    }
}

/// The outcome of one operation: whether it succeeded, and its text.
#[derive(Clone, Debug)]
pub struct ActionResult {
    pub success: bool,
    pub output: String,
}

impl View for ActionResult {
    type V = (bool, Seq<char>);

    open spec fn view(&self) -> (bool, Seq<char>) {
        (self.success, self.output@)
    }
}

impl ActionResult {
    pub fn from_ok(output: String) -> (r: Self)
        ensures
            r@ == (true, output@),
    {
        ActionResult { success: true, output }
    }

    pub fn from_err(output: String) -> (r: Self)
        ensures
            r@ == (false, output@),
    {
        ActionResult { success: false, output }
    }

    pub fn from_result(result: Result<String, String>) -> (r: Self)
        ensures
            r@ == match result {
                Ok(s) => (true, s@),
                Err(s) => (false, s@),
            },
    {
        match result {
            Ok(output) => ActionResult { success: true, output },
            Err(output) => ActionResult { success: false, output },
        }
    }
}

/// What a [`ResultCache`] holds: the latest result of each kind, and the
/// kinds that have a worker running.
pub struct CacheState {
    pub results: Map<ActionKind, (bool, Seq<char>)>,
    pub running: Set<ActionKind>,
}

/// The state after asking to start a worker for `k`: granted only when none
/// is running for `k`, and then `k` is marked running.
pub open spec fn begin_spec(s: CacheState, k: ActionKind) -> (bool, CacheState) {
    if s.running.contains(k) {
        (false, s)
    } else {
        (true, CacheState { results: s.results, running: s.running.insert(k) })
    }
}

/// The state after a worker for `k` delivered `r`: the result replaces the
/// cached one and `k` is no longer running.
pub open spec fn finish_spec(s: CacheState, k: ActionKind, r: (bool, Seq<char>)) -> CacheState {
    CacheState { results: s.results.insert(k, r), running: s.running.remove(k) }
}

/// The state after `r` was stored for `k` without a worker.
pub open spec fn store_spec(s: CacheState, k: ActionKind, r: (bool, Seq<char>)) -> CacheState {
    CacheState { results: s.results.insert(k, r), running: s.running }
}

/// One slot per action kind: its latest result and whether a worker for it is
/// running. At most one worker per kind is ever granted.
pub struct ResultCache {
    results: Vec<ActionResult>,
    running: Vec<bool>,
}

impl View for ResultCache {
    type V = CacheState;

    closed spec fn view(&self) -> CacheState {
        CacheState {
            results: Map::new(
                |k: ActionKind| true,
                |k: ActionKind| self.results@[index_of(k) as int]@,
            ),
            running: Set::new(|k: ActionKind| self.running@[index_of(k) as int]),
        }
    }
}

impl ResultCache {
    /// One slot per kind in each table.
    pub closed spec fn wf(&self) -> bool {
        &&& self.results@.len() == ACTION_KIND_COUNT
        &&& self.running@.len() == ACTION_KIND_COUNT
    }

    /// Every kind starts with an empty successful result and no worker.
    pub fn new() -> (r: Self)
        ensures
            r.wf(),
            forall|k: ActionKind| #[trigger] r@.results.contains_key(k),
            forall|k: ActionKind| #[trigger] r@.results[k] == (true, Seq::<char>::empty()),
            r@.running == Set::<ActionKind>::empty(),
    {
        let mut results: Vec<ActionResult> = Vec::new();
        let mut running: Vec<bool> = Vec::new();
        let mut i: usize = 0;
        while i < ACTION_KIND_COUNT
            invariant
                i <= ACTION_KIND_COUNT,
                results@.len() == i,
                running@.len() == i,
                forall|j: int| 0 <= j < i ==> #[trigger] results@[j]@ == (true, Seq::<char>::empty()),
                forall|j: int| 0 <= j < i ==> !#[trigger] running@[j],
            decreases ACTION_KIND_COUNT - i,
        {
            results.push(ActionResult { success: true, output: String::new() });
            running.push(false);
            i = i + 1;
        }
        let r = ResultCache { results, running };
        proof {
            assert forall|k: ActionKind| #[trigger] r@.results[k] == (true, Seq::<char>::empty()) by {
                lemma_index_of(k);
            }
            assert forall|k: ActionKind| !#[trigger] r@.running.contains(k) by {
                lemma_index_of(k);
            }
            assert(r@.running =~= Set::<ActionKind>::empty());
        }
        r
    }

    /// The latest result of `kind`.
    pub fn get(&self, kind: ActionKind) -> (r: &ActionResult)
        requires
            self.wf(),
        ensures
            r@ == self@.results[kind],
    {
        &self.results[kind.index()]
    }

    /// Whether a worker for `kind` is running.
    pub fn is_running(&self, kind: ActionKind) -> (r: bool)
        requires
            self.wf(),
        ensures
            r == self@.running.contains(kind),
    {
        self.running[kind.index()]
    }

    /// Asks to start a worker for `kind`; refused while one is running.
    pub fn try_begin(&mut self, kind: ActionKind) -> (r: bool)
        requires
            old(self).wf(),
        ensures
            final(self).wf(),
            (r, final(self)@) == begin_spec(old(self)@, kind),
    {
        let i = kind.index();
        if self.running[i] {
            false
        } else {
            let ghost before = self@;
            self.running.set(i, true);
            proof {
                assert forall|k: ActionKind| self@.running.contains(k) == before.running.insert(kind).contains(k) by {
                    lemma_index_of_injective(k, kind);
                }
                assert(self@.running =~= before.running.insert(kind));
                assert(self@.results =~= before.results);
            }
            true
        }
    }

    /// Stores what a worker for `kind` delivered and clears its running mark.
    pub fn finish(&mut self, kind: ActionKind, result: ActionResult)
        requires
            old(self).wf(),
        ensures
            final(self).wf(),
            final(self)@ == finish_spec(old(self)@, kind, result@),
    {
        let ghost before = self@;
        let ghost rv = result@;
        let i = kind.index();
        self.results.set(i, result);
        self.running.set(i, false);
        proof {
            assert forall|k: ActionKind| self@.running.contains(k) == before.running.remove(kind).contains(k) by {
                lemma_index_of_injective(k, kind);
            }
            assert forall|k: ActionKind| #[trigger] self@.results[k] == before.results.insert(kind, rv)[k] by {
                lemma_index_of_injective(k, kind);
            }
            assert(self@.running =~= before.running.remove(kind));
            assert(self@.results =~= before.results.insert(kind, rv));
        }
    }

    /// Stores a result for `kind` that was computed without a worker.
    pub fn set(&mut self, kind: ActionKind, result: ActionResult)
        requires
            old(self).wf(),
        ensures
            final(self).wf(),
            final(self)@ == store_spec(old(self)@, kind, result@),
    {
        let ghost before = self@;
        let ghost rv = result@;
        let i = kind.index();
        self.results.set(i, result);
        proof {
            assert forall|k: ActionKind| #[trigger] self@.results[k] == before.results.insert(kind, rv)[k] by {
                lemma_index_of_injective(k, kind);
            }
            assert(self@.running =~= before.running);
            assert(self@.results =~= before.results.insert(kind, rv));
        }
    }
}

/// A worker is granted for a kind exactly when none is running for it, and
/// once granted, a second request for the same kind is refused until the
/// first worker has delivered; delivering makes the kind available again.
pub proof fn law_single_flight(s: CacheState, k: ActionKind, r: (bool, Seq<char>))
    ensures
        begin_spec(s, k).0 <==> !s.running.contains(k),
        begin_spec(s, k).1.running.contains(k),
        !begin_spec(begin_spec(s, k).1, k).0,
        begin_spec(begin_spec(s, k).1, k).1 == begin_spec(s, k).1,
        begin_spec(finish_spec(begin_spec(s, k).1, k, r), k).0,
{
}

/// A result stored for a kind is read back unchanged, and other kinds keep
/// their results.
pub proof fn law_store_then_read(s: CacheState, k: ActionKind, other: ActionKind, r: (bool, Seq<char>))
    requires
        other != k,
    ensures
        store_spec(s, k, r).results[k] == r,
        finish_spec(s, k, r).results[k] == r,
        store_spec(s, k, r).results[other] == s.results[other],
        finish_spec(s, k, r).results[other] == s.results[other],
        finish_spec(s, k, r).running.contains(other) == s.running.contains(other),
{
}

} // verus!
