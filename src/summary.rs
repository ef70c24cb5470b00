//! Data types summarising the result of diffing content.

use vstd::prelude::*;

use crate::hunks::Hunk;
use crate::positions::MatchedPos;

verus! {

/// The content of one side of a diff.
#[derive(Debug, PartialEq, Eq)]
pub enum FileContent {
    Text(String),
    Binary,
}

/// Everything known about the diff of one pair of files.
#[derive(Debug)]
pub struct DiffResult {
    pub lhs_display_path: String,
    pub rhs_display_path: String,
    pub display_language: Option<String>,
    pub language_used: Option<String>,
    pub lhs_src: FileContent,
    pub rhs_src: FileContent,
    pub lhs_hunks: Vec<Hunk>,
    pub rhs_hunks: Vec<Hunk>,
    pub lhs_positions: Vec<MatchedPos>,
    pub rhs_positions: Vec<MatchedPos>,
    pub has_byte_changes: bool,
    pub has_syntactic_changes: bool,
}

/// The text of an optional string.
pub open spec fn opt_view(o: Option<String>) -> Option<Seq<char>> {
    match o {
        Some(s) => Some(s@),
        None => None,
    }
}

impl DiffResult {
    /// Either side holds binary content.
    pub open spec fn is_binary(&self) -> bool {
        self.lhs_src is Binary || self.rhs_src is Binary
    }

    /// Whether this result counts as a change: binary content by its bytes,
    /// text by its syntax.
    pub open spec fn reportable(&self) -> bool {
        if self.is_binary() {
            self.has_byte_changes
        } else {
            self.has_syntactic_changes
        }
    }

    /// The result has no position and no hunk on either side, and reports no
    /// syntactic change.
    pub open spec fn is_clean(&self) -> bool {
        &&& self.lhs_hunks@.len() == 0
        &&& self.rhs_hunks@.len() == 0
        &&& self.lhs_positions@.len() == 0
        &&& self.rhs_positions@.len() == 0
        &&& !self.has_syntactic_changes
    }

    /// Whether this result should count towards a "changes found" exit code.
    pub fn has_reportable_change(&self) -> (r: bool)
        ensures
            r == self.reportable(),
    {
        if matches!(self.lhs_src, FileContent::Binary) || matches!(self.rhs_src, FileContent::Binary) {
            return self.has_byte_changes;
        }
        self.has_syntactic_changes
    }
}

} // verus!
