//! The options of one run.

use vstd::prelude::*;

verus! {

/// What the caller asked for. The options stay as they are for the whole run.
#[derive(Clone, Debug)]
pub struct Cli {
    /// The paths to read, files and directories, in the order given.
    pub paths: Vec<String>,
    /// How deep a directory is walked: its own entries are at depth one.
    pub max_depth: usize,
    /// Whether failures of single entries are reported.
    pub include_errors: bool,
    /// Whether a summary of counts is wanted in place of the contents.
    pub output_information: bool,
    /// Whether the output goes to the clipboard.
    pub copy: bool,
}

/// The mathematical value of a [`Cli`].
pub struct CliView {
    pub paths: Seq<Seq<char>>,
    pub max_depth: nat,
    pub include_errors: bool,
    pub output_information: bool,
    pub copy: bool,
}

impl View for Cli {
    type V = CliView;

    open spec fn view(&self) -> CliView {
        CliView {
            paths: self.paths.deep_view(),
            max_depth: self.max_depth as nat,
            include_errors: self.include_errors,
            output_information: self.output_information,
            copy: self.copy,
        }
    }
}

} // verus!
