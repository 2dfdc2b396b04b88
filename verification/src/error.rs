//! Why an entry met during a traversal contributes nothing.

use vstd::prelude::*;

verus! {

/// What went wrong with one entry. Such a failure never ends a run: the entry
/// is skipped, and reported where reports are asked for.
#[derive(Clone, Copy, Debug, PartialEq, Eq, Structural)]
pub enum TraversalError {
    /// The file could not be opened or read.
    NotReadable,
    /// The file's bytes are not UTF-8 text.
    NotUtf8OrDecodable,
    /// The file does not lie under the base that its label is relative to.
    PathEscapesBase,
    /// An entry of a directory could not be looked at.
    WalkFailure,
}

/// The words that stand before the path in the description of `error`.
pub open spec fn error_lead(error: TraversalError) -> Seq<char> {
    match error {
        TraversalError::NotReadable => "Failed to read file "@,
        TraversalError::NotUtf8OrDecodable => "Failed to read file "@,
        TraversalError::PathEscapesBase => "Failed to strip prefix from "@,
        TraversalError::WalkFailure => "Failed to read entry "@,
    }
}

/// The description of `error` for the entry shown as `path`.
pub open spec fn error_text(error: TraversalError, path: Seq<char>) -> Seq<char> {
    error_lead(error) + path
}

impl TraversalError {
    /// Describes the failure for the entry shown as `path`.
    pub fn describe(&self, path: &str) -> (text: String)
        ensures
            text@ == error_text(*self, path@),
    {
        let mut text = String::new();
        match self {
            TraversalError::NotReadable => text.append("Failed to read file "),
            TraversalError::NotUtf8OrDecodable => text.append("Failed to read file "),
            TraversalError::PathEscapesBase => text.append("Failed to strip prefix from "),
            TraversalError::WalkFailure => text.append("Failed to read entry "),
        }
        text.append(path);
        assert(text@ =~= error_text(*self, path@));
        text
    }
}

} // verus!
