//! The lifecycle state of a `ghci` process.
use vstd::prelude::*;

verus! {

/// The state of a `ghci` process.
#[derive(Debug, Clone, Copy, PartialEq, Eq, Structural)]
pub enum GhciProcessState {
    /// The process is still running.
    Running,
    /// The process has exited.
    Exited,
}

impl Default for GhciProcessState {
    fn default() -> (r: Self)
        ensures
            r == GhciProcessState::Running,
    {
        GhciProcessState::Running
    }
}

} // verus!
