//! Choosing what a run does with a prepared claim.

use vstd::prelude::*;

verus! {

/// What a run does: execute the check, or prove that it was executed.
#[derive(Clone, Copy, Debug, PartialEq, Eq, Structural)]
pub enum RunMode {
    Execute,
    Prove,
}

/// The mode that two switches select. Exactly one of them must be set:
/// with both or neither there is no mode.
pub fn select_mode(execute: bool, prove: bool) -> (mode: Option<RunMode>)
    ensures
        execute == prove ==> mode is None,
        execute && !prove ==> mode == Some(RunMode::Execute),
        prove && !execute ==> mode == Some(RunMode::Prove),
{
    if execute == prove {
        None
    } else if execute {
        Some(RunMode::Execute)
    } else {
        Some(RunMode::Prove)
    }
}

} // verus!
