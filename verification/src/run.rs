//! The frame of one run: the inputs are checked before anything is read, the
//! output is the body or the summary, and it is printed or copied.

use crate::aggregate::{
    AggregateResultView,
    PathInput,
    aggregate_of,
    aggregate_report,
    input_views,
    output_content,
    output_information,
    summary_text,
    total_chars,
};
use crate::cli::Cli;
use vstd::prelude::*;

verus! {

/// Why a run cannot start.
#[derive(Clone, Debug)]
pub enum InvalidInput {
    /// No path was given.
    NoPaths,
    /// A path that was given does not exist.
    MissingPath { path: String },
}

/// The mathematical value of an [`InvalidInput`].
pub enum InvalidInputView {
    NoPaths,
    MissingPath { path: Seq<char> },
}

impl View for InvalidInput {
    type V = InvalidInputView;

    open spec fn view(&self) -> InvalidInputView {
        match *self {
            InvalidInput::NoPaths => InvalidInputView::NoPaths,
            InvalidInput::MissingPath { path } => InvalidInputView::MissingPath { path: path@ },
        }
    }
}

/// What is said of a run that cannot start.
pub open spec fn invalid_input_text(reason: InvalidInputView) -> Seq<char> {
    match reason {
        InvalidInputView::NoPaths => "No paths provided. Use --help for usage information."@,
        InvalidInputView::MissingPath { path } => "Path or file does not exist: "@ + path,
    }
}

impl InvalidInput {
    /// What is said of a run that cannot start.
    pub fn message(&self) -> (text: String)
        ensures
            text@ == invalid_input_text(self@),
    {
        let mut text = String::new();
        match self {
            InvalidInput::NoPaths => {
                text.append("No paths provided. Use --help for usage information.");
            },
            InvalidInput::MissingPath { path } => {
                text.append("Path or file does not exist: ");
                text.append(path.as_str());
            },
        }
        assert(text@ =~= invalid_input_text(self@));
        text
    }
}

/// The path at position `i` is known to exist. A path without an answer
/// counts as missing.
pub open spec fn path_exists(exists: Seq<bool>, i: int) -> bool {
    0 <= i < exists.len() && exists[i]
}

/// The path at `i` is the first of `count` paths that does not exist.
pub open spec fn is_first_missing(count: nat, exists: Seq<bool>, i: int) -> bool {
    &&& 0 <= i < count
    &&& !path_exists(exists, i)
    &&& forall|j: int| 0 <= j < i ==> path_exists(exists, j)
}

/// Checks the paths that were given against `exists`, which tells of each, by
/// its position, whether it was found. A run needs at least one path, and
/// every path has to exist; the first that does not is named.
pub fn validate_paths(cli: &Cli, exists: &Vec<bool>) -> (result: Result<(), InvalidInput>)
    ensures
        match result {
            Ok(done) => cli.paths.len() > 0 && forall|i: int|
                0 <= i < cli.paths.len() ==> path_exists(exists@, i),
            Err(InvalidInput::NoPaths) => cli.paths.len() == 0,
            Err(InvalidInput::MissingPath { path }) => exists|i: int|
                #[trigger] is_first_missing(cli.paths.len() as nat, exists@, i) && path@
                    == cli.paths[i]@,
        },
{
    if cli.paths.len() == 0 {
        return Err(InvalidInput::NoPaths);
    }
    let mut i: usize = 0;
    while i < cli.paths.len()
        invariant
            i <= cli.paths.len(),
            forall|j: int| 0 <= j < i ==> path_exists(exists@, j),
        decreases cli.paths.len() - i,
    {
        if i >= exists.len() || !exists[i] {
            assert(is_first_missing(cli.paths.len() as nat, exists@, i as int));
            return Err(InvalidInput::MissingPath { path: cli.paths[i].clone() });
        }
        i += 1;
    }
    Ok(())
}

/// What a run shows: the summary where one is wanted, the body otherwise.
pub open spec fn rendered(result: AggregateResultView, summary_only: bool) -> Seq<char> {
    if summary_only {
        summary_text(result)
    } else {
        result.body
    }
}

/// Goes through the inputs and gives what the run shows, in the mode that
/// `cli` asks for.
pub fn render_output(cli: &Cli, inputs: &Vec<PathInput>, errors: &mut String) -> (text: String)
    requires
        aggregate_of(
            input_views(inputs@),
            cli.max_depth as nat,
            cli.output_information,
        ).total_chars <= usize::MAX,
    ensures
        text@ == rendered(
            aggregate_of(input_views(inputs@), cli.max_depth as nat, cli.output_information),
            cli.output_information,
        ),
        final(errors)@ == old(errors)@ + aggregate_report(
            input_views(inputs@),
            cli.max_depth as nat,
            cli.output_information,
            cli.include_errors,
            cli.output_information,
        ),
{
    if cli.output_information {
        output_information(cli, inputs, errors)
    } else {
        output_content(cli, inputs, errors)
    }
}

/// Where the output of a run goes.
#[derive(Clone, Copy, Debug, PartialEq, Eq, Structural)]
pub enum Delivery {
    /// To the standard output.
    Print,
    /// To the clipboard.
    Copy,
    /// Nowhere: the clipboard was asked for and there is nothing to copy.
    NothingToCopy,
}

/// Where `output` goes.
pub open spec fn delivery_of(copy: bool, output: Seq<char>) -> Delivery {
    if !copy {
        Delivery::Print
    } else if output.len() > 0 {
        Delivery::Copy
    } else {
        Delivery::NothingToCopy
    }
}

/// What is said on the error channel once the output was delivered.
pub open spec fn delivery_notice(delivery: Delivery) -> Seq<char> {
    match delivery {
        Delivery::Print => Seq::empty(),
        Delivery::Copy => "Output copied to clipboard."@,
        Delivery::NothingToCopy => "No output to copy to clipboard."@,
    }
}

/// Decides where `output` goes.
pub fn choose_delivery(cli: &Cli, output: &str) -> (delivery: Delivery)
    ensures
        delivery == delivery_of(cli.copy, output@),
{
    if !cli.copy {
        Delivery::Print
    } else if !output.is_empty() {
        Delivery::Copy
    } else {
        Delivery::NothingToCopy
    }
}

impl Delivery {
    /// What is said on the error channel once the output was delivered:
    /// nothing where it was printed.
    pub fn notice(&self) -> (text: String)
        ensures
            text@ == delivery_notice(*self),
    {
        let mut text = String::new();
        match self {
            Delivery::Print => {},
            Delivery::Copy => text.append("Output copied to clipboard."),
            Delivery::NothingToCopy => text.append("No output to copy to clipboard."),
        }
        assert(text@ =~= delivery_notice(*self));
        text
    }
}

/// Goes through the inputs and gives what the run shows, wherever the totals
/// can be held. Where they cannot, nothing is built and nothing reported.
pub fn try_render_output(cli: &Cli, inputs: &Vec<PathInput>, errors: &mut String) -> (text: Option<
    String,
>)
    ensures
        match text {
            Some(shown) => {
                &&& aggregate_of(
                    input_views(inputs@),
                    cli.max_depth as nat,
                    cli.output_information,
                ).total_chars <= usize::MAX
                &&& shown@ == rendered(
                    aggregate_of(
                        input_views(inputs@),
                        cli.max_depth as nat,
                        cli.output_information,
                    ),
                    cli.output_information,
                )
                &&& final(errors)@ == old(errors)@ + aggregate_report(
                    input_views(inputs@),
                    cli.max_depth as nat,
                    cli.output_information,
                    cli.include_errors,
                    cli.output_information,
                )
            },
            None => {
                &&& aggregate_of(
                    input_views(inputs@),
                    cli.max_depth as nat,
                    cli.output_information,
                ).total_chars > usize::MAX
                &&& final(errors)@ == old(errors)@
            },
        },
{
    match total_chars(cli, inputs) {
        Some(sum) => Some(render_output(cli, inputs, errors)),
        None => None,
    }
}

} // verus!
