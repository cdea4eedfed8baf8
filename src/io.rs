//! The retry policy for removing a file: a removal is attempted a fixed number
//! of times, with no pause between attempts.

use vstd::prelude::*;

verus! {

/// How many times a removal is attempted before its error is handed back.
pub const REMOVE_ATTEMPTS: u32 = 4;

/// What to do after an attempt to remove a file.
pub enum RemovalStep {
    /// The file was removed.
    Done,
    /// The attempt failed and another one is due.
    Retry,
    /// The last attempt failed: its error is the result.
    GiveUp,
}

/// Decides the next step after attempt number `attempt` (counted from 1), given
/// whether that attempt removed the file.
pub fn removal_step(attempt: u32, removed: bool) -> (r: RemovalStep)
    requires
        1 <= attempt <= REMOVE_ATTEMPTS,
    ensures
        removed ==> r is Done,
        !removed && attempt < REMOVE_ATTEMPTS ==> r is Retry,
        !removed && attempt == REMOVE_ATTEMPTS ==> r is GiveUp,
{
    if removed {
        RemovalStep::Done
    } else if attempt < REMOVE_ATTEMPTS {
        RemovalStep::Retry
    } else {
        RemovalStep::GiveUp
    }
}

} // verus!
