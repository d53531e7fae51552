use vstd::prelude::*;

pub mod config;
pub mod engine;
pub mod fetch;
pub mod member;
pub mod payload;
pub mod target;
pub mod wire;

verus! {

/// Outcome of one mutation call against the proxy target, as the engine
/// classifies it: applied, transiently unavailable, or rejected by the
/// target. Only an applied outcome changes the observed state.
#[derive(Clone, Copy, Debug, PartialEq, Eq, Structural)]
pub enum MutationOutcome {
    Applied,
    Unavailable,
    Rejected,
}

impl MutationOutcome {
    /// The engine treats only a confirmed application as success.
    pub fn is_success(&self) -> (r: bool)
        ensures
            r == (*self matches MutationOutcome::Applied),
    {
        match self {
            MutationOutcome::Applied => true,
            MutationOutcome::Unavailable => false,
            MutationOutcome::Rejected => false,
        }
    }
}

} // verus!
