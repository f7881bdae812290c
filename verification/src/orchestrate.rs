//! The decision the run makes about the output folder.
//!
//! The folder is created once per run; a run in a directory that
//! already has it must carry on, so only some other creation failure
//! is fatal.

use vstd::prelude::*;

verus! {

/// How an attempt to create the output folder ended.
pub enum DirOutcome {
    /// The folder was created.
    Created,
    /// The folder was already there from an earlier run.
    AlreadyExists,
    /// Creation failed for some other reason.
    CreateFailed,
}

/// Whether the outcome ends the program. An already-existing folder is
/// as good as a fresh one, so a second run in the same directory never
/// fails on it; only another creation failure is fatal.
pub fn dir_create_fatal(o: &DirOutcome) -> (b: bool)
    ensures
        b == (o is CreateFailed),
{
    match o {
        DirOutcome::CreateFailed => true,
        _ => false,
    }
}

} // verus!
