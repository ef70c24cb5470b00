//! A syntactic diff of two versions of a file, as verified decisions.
//!
//! `pipeline` decides, step by step, how a pair of files is diffed and
//! finishes the result from the positions a differ reports; `hunks` groups
//! changed lines into display hunks; `lines` tags the lines of a diff made
//! line by line; `report` decides what is shown for a result; `unchanged`
//! peels matching nodes off the ends of two sibling lists.

use vstd::prelude::*;

pub mod hunks;
pub mod pipeline;
pub mod lines;
pub mod positions;
pub mod report;
pub mod summary;
pub mod unchanged;

verus! {

/// Exit status when no reportable change was found.
pub const EXIT_SUCCESS: i32 = 0;

/// Exit status when a change was found and the caller asked for it.
pub const EXIT_FOUND_CHANGES: i32 = 1;

/// The process exit status after every file was diffed.
pub fn exit_code(set_exit_code: bool, encountered_changes: bool) -> (r: i32)
    ensures
        r == (if set_exit_code && encountered_changes { EXIT_FOUND_CHANGES } else { EXIT_SUCCESS }),
{
    if set_exit_code && encountered_changes {
        EXIT_FOUND_CHANGES
    } else {
        EXIT_SUCCESS
    }
}

} // verus!
