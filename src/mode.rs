use vstd::prelude::*;

pub mod revision_details;

verus! {

/// The mode families a front end can show.
#[derive(Clone, Debug, PartialEq, Eq)]
pub enum ModeKind {
    Status,
    Log,
    RevisionDetails(String),
    Branches,
    Tags,
}

impl Default for ModeKind {
    fn default() -> (r: Self)
        ensures
            r is Status,
    {
        ModeKind::Status
    }
}

/// A response delivered by a worker to the mode that asked for it.
#[derive(Debug)]
pub enum ModeResponse {
    RevisionDetails(revision_details::Response),
}

/// What a mode needs to know of its surroundings: the viewport as
/// (columns, rows).
#[derive(Clone, Copy, Debug)]
pub struct ModeContext {
    pub viewport_size: (u16, u16),
}

/// What a mode tells the front end after a key.
#[derive(Clone, Copy, Debug, PartialEq, Eq, Structural)]
pub struct ModeStatus {
    pub pending_input: bool,
}

} // verus!
