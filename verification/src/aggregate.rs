//! Going through the input paths: each is a directory, a file or something
//! else; their contributions are gathered in the order given, and shown as a
//! body or as a summary.

use crate::blocks::{
    Contribution,
    ContributionView,
    concat,
    counts_bounded,
    gather,
    nothing,
    push_block,
};
use crate::cli::Cli;
use crate::decimal::{decimal_text, push_decimal};
use crate::directory_operations::{
    WalkEntry,
    WalkEntryView,
    directory_chars,
    directory_contribution,
    directory_report,
    entry_contributions,
    entry_views,
    lemma_entry_counts_bounded,
    process_directory,
};
use crate::error::{TraversalError, error_text};
use crate::file_operations::{
    FileResultView,
    count_file_chars,
    data_view,
    file_text,
    process_file,
    resolve_file,
};
use crate::paths::{EntryPath, EntryPathView};
use crate::counting::lemma_count_below_bound;
use vstd::prelude::*;

verus! {

/// One input path with what was found at it.
#[derive(Clone, Debug)]
pub enum PathInput {
    /// A directory, with the entries that a walk of it met, in their order.
    Directory { path: EntryPath, entries: Vec<WalkEntry> },
    /// A regular file, with what reading it gave.
    File { path: EntryPath, data: Option<Vec<u8>> },
    /// Neither a directory nor a regular file.
    Other { path: EntryPath },
}

/// The mathematical value of a [`PathInput`].
pub enum PathInputView {
    Directory { path: EntryPathView, entries: Seq<WalkEntryView> },
    File { path: EntryPathView, data: Option<Seq<u8>> },
    Other { path: EntryPathView },
}

impl View for PathInput {
    type V = PathInputView;

    open spec fn view(&self) -> PathInputView {
        match *self {
            PathInput::Directory { path, entries } => PathInputView::Directory {
                path: path@,
                entries: entry_views(entries@),
            },
            PathInput::File { path, data } => PathInputView::File {
                path: path@,
                data: data_view(data),
            },
            PathInput::Other { path } => PathInputView::Other { path: path@ },
        }
    }
}

impl PathInput {
    /// The path that was given.
    pub fn path(&self) -> (path: &EntryPath)
        ensures
            path@ == input_path(self@),
    {
        match self {
            PathInput::Directory { path, entries } => path,
            PathInput::File { path, data } => path,
            PathInput::Other { path } => path,
        }
    }
}

/// The values of the inputs.
pub open spec fn input_views(inputs: Seq<PathInput>) -> Seq<PathInputView> {
    Seq::new(inputs.len(), |i: int| inputs[i]@)
}

/// The path of an input.
pub open spec fn input_path(input: PathInputView) -> EntryPathView {
    match input {
        PathInputView::Directory { path, entries } => path,
        PathInputView::File { path, data } => path,
        PathInputView::Other { path } => path,
    }
}

/// What resolving a file that was named as an input gives: its label is its
/// own name.
pub open spec fn input_file(path: EntryPathView, data: Option<Seq<u8>>, summary_only: bool) -> Result<
    FileResultView,
    TraversalError,
> {
    resolve_file(
        path,
        EntryPathView { display: Seq::empty(), components: Seq::empty() },
        data,
        summary_only,
    )
}

/// What one input gives: a directory what its walk gathers, a file its block
/// and counts or the reason why it has none, anything else nothing.
pub open spec fn path_result(input: PathInputView, max_depth: nat, summary_only: bool) -> Result<
    ContributionView,
    TraversalError,
> {
    match input {
        PathInputView::Directory { path, entries } => Ok(
            directory_contribution(entries, path, max_depth, summary_only),
        ),
        PathInputView::File { path, data } => match input_file(path, data, summary_only) {
            Ok(file) => Ok(
                ContributionView {
                    text: file.text,
                    chars: file.char_count,
                    words: file.word_count,
                    non_empty_lines: file.non_empty_line_count,
                },
            ),
            Err(error) => Err(error),
        },
        PathInputView::Other { path } => Ok(nothing()),
    }
}

/// What one input adds to the output: what it gives, and nothing where it
/// gives none.
pub open spec fn path_contribution(input: PathInputView, max_depth: nat, summary_only: bool) -> ContributionView {
    match path_result(input, max_depth, summary_only) {
        Ok(found) => found,
        Err(error) => nothing(),
    }
}

/// The report of an input that is neither a file nor a directory.
pub open spec fn other_kind_report(path: Seq<char>) -> Seq<char> {
    "ERROR: Path '"@ + path + "' is neither a file nor a directory\n"@
}

/// What going through one input reports by itself: a directory the failures
/// of its walk, an input of another kind that it is one, where reports are
/// wanted. The failure of a file is left to the caller.
pub open spec fn path_report(
    input: PathInputView,
    max_depth: nat,
    summary_only: bool,
    include_errors: bool,
) -> Seq<char> {
    match input {
        PathInputView::Directory { path, entries } => directory_report(
            entries,
            path,
            max_depth,
            summary_only,
            include_errors,
        ),
        PathInputView::File { path, data } => Seq::empty(),
        PathInputView::Other { path } => if include_errors {
            other_kind_report(path.display)
        } else {
            Seq::empty()
        },
    }
}

/// Goes through one input: a directory is walked, a file resolved under its
/// own name, and anything else gives nothing.
pub fn process_path(cli: &Cli, input: &PathInput, errors: &mut String) -> (result: Result<
    Contribution,
    TraversalError,
>)
    requires
        input@ is Directory ==> path_contribution(
            input@,
            cli.max_depth as nat,
            cli.output_information,
        ).chars <= usize::MAX,
    ensures
        match path_result(input@, cli.max_depth as nat, cli.output_information) {
            Ok(expected) => result matches Ok(found) && found@ == expected,
            Err(error) => result matches Err(found) && found == error,
        },
        final(errors)@ == old(errors)@ + path_report(
            input@,
            cli.max_depth as nat,
            cli.output_information,
            cli.include_errors,
        ),
{
    match input {
        PathInput::Directory { path, entries } => Ok(process_directory(cli, path, entries, errors)),
        PathInput::File { path, data } => {
            assert(errors@ =~= old(errors)@ + Seq::<char>::empty());
            match process_file(cli, path, data) {
                Ok(file) => Ok(
                    Contribution {
                        text: file.text,
                        chars: file.char_count,
                        words: file.word_count,
                        non_empty_lines: file.non_empty_line_count,
                    },
                ),
                Err(error) => Err(error),
            }
        },
        PathInput::Other { path } => {
            if cli.include_errors {
                errors.append("ERROR: Path '");
                errors.append(path.display.as_str());
                errors.append("' is neither a file nor a directory\n");
                assert(errors@ =~= old(errors)@ + other_kind_report(path@.display));
            } else {
                assert(errors@ =~= old(errors)@ + Seq::<char>::empty());
            }
            Ok(Contribution { text: String::new(), chars: 0, words: 0, non_empty_lines: 0 })
        },
    }
}

/// What a run over all inputs yields.
#[derive(Clone, Debug)]
pub struct AggregateResult {
    /// The blocks of all inputs, with separator lines between them.
    pub body: String,
    /// Unicode scalar values in all contents read.
    pub total_chars: usize,
    /// Words in all contents read.
    pub total_words: usize,
    /// Non-empty lines in all contents read.
    pub total_non_empty_lines: usize,
    /// The inputs that were gone through without failure, as they were
    /// given and in their order.
    pub processed_paths: Vec<String>,
}

/// The mathematical value of an [`AggregateResult`].
pub struct AggregateResultView {
    pub body: Seq<char>,
    pub total_chars: nat,
    pub total_words: nat,
    pub total_non_empty_lines: nat,
    pub processed_paths: Seq<Seq<char>>,
}

impl View for AggregateResult {
    type V = AggregateResultView;

    open spec fn view(&self) -> AggregateResultView {
        AggregateResultView {
            body: self.body@,
            total_chars: self.total_chars as nat,
            total_words: self.total_words as nat,
            total_non_empty_lines: self.total_non_empty_lines as nat,
            processed_paths: self.processed_paths.deep_view(),
        }
    }
}

/// What each input adds, in the order given.
pub open spec fn path_contributions(inputs: Seq<PathInputView>, max_depth: nat, summary_only: bool) -> Seq<
    ContributionView,
> {
    Seq::new(inputs.len(), |i: int| path_contribution(inputs[i], max_depth, summary_only))
}

/// The inputs that give something or nothing, but do not fail, as they were
/// given and in their order.
pub open spec fn processed_paths(inputs: Seq<PathInputView>, max_depth: nat, summary_only: bool) -> Seq<
    Seq<char>,
>
    decreases inputs.len(),
{
    if inputs.len() == 0 {
        Seq::empty()
    } else {
        let before = processed_paths(inputs.drop_last(), max_depth, summary_only);
        if path_result(inputs.last(), max_depth, summary_only) is Ok {
            before.push(input_path(inputs.last()).display)
        } else {
            before
        }
    }
}

/// What a run over `inputs` yields: the contributions of the inputs gathered
/// in the order given, and the inputs that did not fail.
pub open spec fn aggregate_of(inputs: Seq<PathInputView>, max_depth: nat, summary_only: bool) -> AggregateResultView {
    let gathered = gather(path_contributions(inputs, max_depth, summary_only), summary_only);
    AggregateResultView {
        body: gathered.text,
        total_chars: gathered.chars,
        total_words: gathered.words,
        total_non_empty_lines: gathered.non_empty_lines,
        processed_paths: processed_paths(inputs, max_depth, summary_only),
    }
}

/// The words that open the report of an input that failed.
pub open spec fn failure_lead(for_summary: bool) -> Seq<char> {
    if for_summary {
        "ERROR gathering info for path "@
    } else {
        "ERROR processing path "@
    }
}

/// The report of an input that failed.
pub open spec fn failure_report(path: Seq<char>, error: TraversalError, for_summary: bool) -> Seq<
    char,
> {
    failure_lead(for_summary) + path + ": "@ + error_text(error, path) + "\n"@
}

/// All that is reported of one input: what going through it reports, and its
/// own failure where it failed and reports are wanted.
pub open spec fn input_report(
    input: PathInputView,
    max_depth: nat,
    summary_only: bool,
    include_errors: bool,
    for_summary: bool,
) -> Seq<char> {
    path_report(input, max_depth, summary_only, include_errors) + match path_result(
        input,
        max_depth,
        summary_only,
    ) {
        Err(error) => if include_errors {
            failure_report(input_path(input).display, error, for_summary)
        } else {
            Seq::empty()
        },
        Ok(found) => Seq::empty(),
    }
}

/// What is reported of each input, in the order given.
pub open spec fn input_reports(
    inputs: Seq<PathInputView>,
    max_depth: nat,
    summary_only: bool,
    include_errors: bool,
    for_summary: bool,
) -> Seq<Seq<char>> {
    Seq::new(
        inputs.len(),
        |i: int| input_report(inputs[i], max_depth, summary_only, include_errors, for_summary),
    )
}

/// What a run reports: the reports of its inputs, one after the other.
pub open spec fn aggregate_report(
    inputs: Seq<PathInputView>,
    max_depth: nat,
    summary_only: bool,
    include_errors: bool,
    for_summary: bool,
) -> Seq<char> {
    concat(input_reports(inputs, max_depth, summary_only, include_errors, for_summary))
}

/// The counts of words and lines of what an input adds do not exceed its
/// count of characters.
pub proof fn lemma_path_counts_bounded(input: PathInputView, max_depth: nat, summary_only: bool)
    ensures
        counts_bounded(path_contribution(input, max_depth, summary_only)),
{
    match input {
        PathInputView::Directory { path, entries } => {
            let items = entry_contributions(entries, path, max_depth, summary_only);
            assert forall|k: int| 0 <= k < items.len() implies counts_bounded(
                #[trigger] items[k],
            ) by {
                lemma_entry_counts_bounded(entries[k], path, max_depth, summary_only);
            }
            crate::blocks::lemma_gather_bounded(items, summary_only);
        },
        PathInputView::File { path, data } => {
            if input_file(path, data, summary_only) is Ok {
                let contents = file_text(data)->Ok_0;
                lemma_count_below_bound(
                    contents.len(),
                    |i: int| crate::text::starts_word(contents, i),
                );
                lemma_count_below_bound(
                    contents.len(),
                    |i: int| crate::text::starts_line_content(contents, i),
                );
            }
        },
        PathInputView::Other { path } => {},
    }
}

/// The result of a run after `input` was gone through.
pub open spec fn with_input(
    before: AggregateResultView,
    input: PathInputView,
    max_depth: nat,
    summary_only: bool,
) -> AggregateResultView {
    let added = path_contribution(input, max_depth, summary_only);
    AggregateResultView {
        body: crate::blocks::append_block(before.body, added.text, summary_only),
        total_chars: before.total_chars + added.chars,
        total_words: before.total_words + added.words,
        total_non_empty_lines: before.total_non_empty_lines + added.non_empty_lines,
        processed_paths: if path_result(input, max_depth, summary_only) is Ok {
            before.processed_paths.push(input_path(input).display)
        } else {
            before.processed_paths
        },
    }
}

/// A run over inputs is the run over all but the last, with the last one
/// gone through after it.
pub proof fn lemma_aggregate_step(inputs: Seq<PathInputView>, max_depth: nat, summary_only: bool)
    requires
        inputs.len() > 0,
    ensures
        aggregate_of(inputs, max_depth, summary_only) == with_input(
            aggregate_of(inputs.drop_last(), max_depth, summary_only),
            inputs.last(),
            max_depth,
            summary_only,
        ),
{
    let items = path_contributions(inputs, max_depth, summary_only);
    assert(items.drop_last() =~= path_contributions(inputs.drop_last(), max_depth, summary_only));
}

/// Reports the failure of an input, where reports are wanted.
fn report_failure(
    path: &EntryPath,
    error: TraversalError,
    include_errors: bool,
    for_summary: bool,
    errors: &mut String,
)
    ensures
        final(errors)@ == old(errors)@ + if include_errors {
            failure_report(path@.display, error, for_summary)
        } else {
            Seq::empty()
        },
{
    if include_errors {
        let cause = error.describe(path.display.as_str());
        if for_summary {
            errors.append("ERROR gathering info for path ");
        } else {
            errors.append("ERROR processing path ");
        }
        errors.append(path.display.as_str());
        errors.append(": ");
        errors.append(cause.as_str());
        errors.append("\n");
        assert(errors@ =~= old(errors)@ + failure_report(path@.display, error, for_summary));
    } else {
        assert(errors@ =~= old(errors)@ + Seq::<char>::empty());
    }
}

/// Goes through one more input and adds what it gives to `gathered`.
fn add_input(
    cli: &Cli,
    input: &PathInput,
    for_summary: bool,
    gathered: &mut AggregateResult,
    errors: &mut String,
)
    requires
        with_input(
            old(gathered)@,
            input@,
            cli.max_depth as nat,
            cli.output_information,
        ).total_chars <= usize::MAX,
        old(gathered).total_words <= old(gathered).total_chars,
        old(gathered).total_non_empty_lines <= old(gathered).total_chars,
    ensures
        final(gathered)@ == with_input(
            old(gathered)@,
            input@,
            cli.max_depth as nat,
            cli.output_information,
        ),
        final(gathered).total_words <= final(gathered).total_chars,
        final(gathered).total_non_empty_lines <= final(gathered).total_chars,
        final(errors)@ == old(errors)@ + input_report(
            input@,
            cli.max_depth as nat,
            cli.output_information,
            cli.include_errors,
            for_summary,
        ),
{
    proof {
        lemma_path_counts_bounded(input@, cli.max_depth as nat, cli.output_information);
    }
    let ghost gone = gathered.processed_paths.deep_view();
    match process_path(cli, input, errors) {
        Ok(found) => {
            gathered.total_chars += found.chars;
            gathered.total_words += found.words;
            gathered.total_non_empty_lines += found.non_empty_lines;
            push_block(&mut gathered.body, found.text.as_str(), cli.output_information);
            gathered.processed_paths.push(input.path().display.clone());
            assert(gathered.processed_paths.deep_view() =~= gone.push(input_path(input@).display));
            assert(errors@ =~= old(errors)@ + input_report(
                input@,
                cli.max_depth as nat,
                cli.output_information,
                cli.include_errors,
                for_summary,
            ));
        },
        Err(error) => {
            report_failure(input.path(), error, cli.include_errors, for_summary, errors);
            assert(errors@ =~= old(errors)@ + input_report(
                input@,
                cli.max_depth as nat,
                cli.output_information,
                cli.include_errors,
                for_summary,
            ));
        },
    }
}

/// Goes through the inputs in the order given. An input that fails adds
/// nothing and is left out of the paths gone through; the run goes on with
/// the next one. `for_summary` only chooses the wording of such a failure's
/// report.
pub fn aggregate(cli: &Cli, inputs: &Vec<PathInput>, for_summary: bool, errors: &mut String) -> (result:
    AggregateResult)
    requires
        aggregate_of(
            input_views(inputs@),
            cli.max_depth as nat,
            cli.output_information,
        ).total_chars <= usize::MAX,
    ensures
        result@ == aggregate_of(
            input_views(inputs@),
            cli.max_depth as nat,
            cli.output_information,
        ),
        final(errors)@ == old(errors)@ + aggregate_report(
            input_views(inputs@),
            cli.max_depth as nat,
            cli.output_information,
            cli.include_errors,
            for_summary,
        ),
{
    let ghost views = input_views(inputs@);
    let ghost max_depth = cli.max_depth as nat;
    let ghost summary_only = cli.output_information;
    let ghost reports = input_reports(views, max_depth, summary_only, cli.include_errors, for_summary);
    let mut gathered = AggregateResult {
        body: String::new(),
        total_chars: 0,
        total_words: 0,
        total_non_empty_lines: 0,
        processed_paths: Vec::new(),
    };
    let mut i: usize = 0;
    proof {
        assert(reports.take(0) =~= Seq::<Seq<char>>::empty());
        assert(views.take(0) =~= Seq::<PathInputView>::empty());
        assert(gathered.processed_paths.deep_view() =~= Seq::<Seq<char>>::empty());
        assert(errors@ =~= old(errors)@ + Seq::<char>::empty());
    }
    while i < inputs.len()
        invariant
            i <= inputs.len(),
            views == input_views(inputs@),
            max_depth == cli.max_depth as nat,
            summary_only == cli.output_information,
            reports == input_reports(
                views,
                max_depth,
                summary_only,
                cli.include_errors,
                for_summary,
            ),
            aggregate_of(views, max_depth, summary_only).total_chars <= usize::MAX,
            gathered@ == aggregate_of(views.take(i as int), max_depth, summary_only),
            gathered.total_words <= gathered.total_chars,
            gathered.total_non_empty_lines <= gathered.total_chars,
            errors@ == old(errors)@ + concat(reports.take(i as int)),
        decreases inputs.len() - i,
    {
        proof {
            lemma_aggregate_step(views.take(i + 1), max_depth, summary_only);
            lemma_aggregate_prefix(views, i + 1, max_depth, summary_only);
            assert(views.take(i + 1).drop_last() =~= views.take(i as int));
            assert(views.take(i + 1).last() == inputs[i as int]@);
            assert(reports.take(i + 1).drop_last() =~= reports.take(i as int));
        }
        let ghost reported = errors@;
        add_input(cli, &inputs[i], for_summary, &mut gathered, errors);
        assert(errors@ =~= old(errors)@ + concat(reports.take(i + 1))) by {
            assert(errors@ == reported + reports[i as int]);
        }
        i += 1;
    }
    proof {
        assert(reports.take(i as int) =~= reports);
        assert(views.take(i as int) =~= views);
    }
    gathered
}

/// The total of characters after some of the inputs does not exceed the
/// total after all of them.
pub proof fn lemma_aggregate_prefix(
    inputs: Seq<PathInputView>,
    n: int,
    max_depth: nat,
    summary_only: bool,
)
    requires
        0 <= n <= inputs.len(),
    ensures
        aggregate_of(inputs.take(n), max_depth, summary_only).total_chars <= aggregate_of(
            inputs,
            max_depth,
            summary_only,
        ).total_chars,
    decreases inputs.len() - n,
{
    if n < inputs.len() {
        lemma_aggregate_prefix(inputs, n + 1, max_depth, summary_only);
        lemma_aggregate_step(inputs.take(n + 1), max_depth, summary_only);
        assert(inputs.take(n + 1).drop_last() =~= inputs.take(n));
    } else {
        assert(inputs.take(n) =~= inputs);
    }
}

/// The paths one after the other, with a space between them.
pub open spec fn joined_paths(paths: Seq<Seq<char>>) -> Seq<char>
    decreases paths.len(),
{
    if paths.len() == 0 {
        Seq::empty()
    } else {
        let before = joined_paths(paths.drop_last());
        if before.len() > 0 {
            before + " "@ + paths.last()
        } else {
            paths.last()
        }
    }
}

/// The summary of a run: the paths gone through and the three totals, each
/// on a line of its own.
pub open spec fn summary_text(result: AggregateResultView) -> Seq<char> {
    "Paths: "@ + joined_paths(result.processed_paths) + "\n"@ + "Total Characters: "@
        + decimal_text(result.total_chars) + "\n"@ + "Total Words: "@ + decimal_text(
        result.total_words,
    ) + "\n"@ + "Total Non-Empty Lines: "@ + decimal_text(result.total_non_empty_lines) + "\n"@
}

/// Joins the paths with a space between them.
fn join_paths(paths: &Vec<String>) -> (text: String)
    ensures
        text@ == joined_paths(paths.deep_view()),
{
    let ghost all = paths.deep_view();
    let mut text = String::new();
    let mut i: usize = 0;
    assert(all.take(0) =~= Seq::<Seq<char>>::empty());
    while i < paths.len()
        invariant
            i <= paths.len(),
            all == paths.deep_view(),
            text@ == joined_paths(all.take(i as int)),
        decreases paths.len() - i,
    {
        proof {
            assert(all.take(i + 1).drop_last() =~= all.take(i as int));
            assert(all.take(i + 1).last() == paths[i as int]@);
        }
        if !text.as_str().is_empty() {
            text.append(" ");
        }
        text.append(paths[i].as_str());
        i += 1;
        assert(text@ =~= joined_paths(all.take(i as int)));
    }
    assert(all.take(i as int) =~= all);
    text
}

/// Writes the summary of a run.
pub fn render_summary(result: &AggregateResult) -> (text: String)
    ensures
        text@ == summary_text(result@),
{
    let paths = join_paths(&result.processed_paths);
    let mut text = String::new();
    text.append("Paths: ");
    text.append(paths.as_str());
    text.append("\n");
    text.append("Total Characters: ");
    push_decimal(&mut text, result.total_chars);
    text.append("\n");
    text.append("Total Words: ");
    push_decimal(&mut text, result.total_words);
    text.append("\n");
    text.append("Total Non-Empty Lines: ");
    push_decimal(&mut text, result.total_non_empty_lines);
    text.append("\n");
    assert(text@ =~= summary_text(result@));
    text
}

/// Goes through the inputs and gives the summary of their counts. The counts
/// are those of the contents, whether or not blocks are built on the way.
pub fn output_information(cli: &Cli, inputs: &Vec<PathInput>, errors: &mut String) -> (text: String)
    requires
        aggregate_of(
            input_views(inputs@),
            cli.max_depth as nat,
            cli.output_information,
        ).total_chars <= usize::MAX,
    ensures
        text@ == summary_text(
            aggregate_of(input_views(inputs@), cli.max_depth as nat, cli.output_information),
        ),
        final(errors)@ == old(errors)@ + aggregate_report(
            input_views(inputs@),
            cli.max_depth as nat,
            cli.output_information,
            cli.include_errors,
            true,
        ),
{
    let result = aggregate(cli, inputs, true, errors);
    render_summary(&result)
}

/// Goes through the inputs and gives the body: their blocks in the order
/// given, with a separator line between every two that hold something.
pub fn output_content(cli: &Cli, inputs: &Vec<PathInput>, errors: &mut String) -> (body: String)
    requires
        aggregate_of(
            input_views(inputs@),
            cli.max_depth as nat,
            cli.output_information,
        ).total_chars <= usize::MAX,
    ensures
        body@ == aggregate_of(
            input_views(inputs@),
            cli.max_depth as nat,
            cli.output_information,
        ).body,
        final(errors)@ == old(errors)@ + aggregate_report(
            input_views(inputs@),
            cli.max_depth as nat,
            cli.output_information,
            cli.include_errors,
            false,
        ),
{
    let result = aggregate(cli, inputs, false, errors);
    result.body
}

/// What an input counts for is the same in both modes, and so is whether it
/// fails.
pub proof fn lemma_path_counts_same_in_both_modes(input: PathInputView, max_depth: nat)
    ensures
        path_contribution(input, max_depth, true).chars == path_contribution(
            input,
            max_depth,
            false,
        ).chars,
        path_contribution(input, max_depth, true).words == path_contribution(
            input,
            max_depth,
            false,
        ).words,
        path_contribution(input, max_depth, true).non_empty_lines == path_contribution(
            input,
            max_depth,
            false,
        ).non_empty_lines,
        path_result(input, max_depth, true) is Ok == path_result(input, max_depth, false) is Ok,
{
    match input {
        PathInputView::Directory { path, entries } => {
            crate::directory_operations::lemma_directory_counts(entries, path, max_depth, true);
            crate::directory_operations::lemma_directory_counts(entries, path, max_depth, false);
        },
        _ => {},
    }
}

/// The totals of a run, and the paths gone through, are the same whether the
/// run builds the body or only counts.
pub proof fn lemma_totals_same_in_both_modes(inputs: Seq<PathInputView>, max_depth: nat)
    ensures
        aggregate_of(inputs, max_depth, true).total_chars == aggregate_of(
            inputs,
            max_depth,
            false,
        ).total_chars,
        aggregate_of(inputs, max_depth, true).total_words == aggregate_of(
            inputs,
            max_depth,
            false,
        ).total_words,
        aggregate_of(inputs, max_depth, true).total_non_empty_lines == aggregate_of(
            inputs,
            max_depth,
            false,
        ).total_non_empty_lines,
        aggregate_of(inputs, max_depth, true).processed_paths == aggregate_of(
            inputs,
            max_depth,
            false,
        ).processed_paths,
    decreases inputs.len(),
{
    if inputs.len() > 0 {
        lemma_totals_same_in_both_modes(inputs.drop_last(), max_depth);
        lemma_path_counts_same_in_both_modes(inputs.last(), max_depth);
        lemma_aggregate_step(inputs, max_depth, true);
        lemma_aggregate_step(inputs, max_depth, false);
    }
}

/// The totals of a run are the sums, over the inputs, of what each input
/// counts for.
pub proof fn lemma_totals_are_sums(inputs: Seq<PathInputView>, max_depth: nat, summary_only: bool)
    ensures
        aggregate_of(inputs, max_depth, summary_only).total_chars == crate::counting::sum_of(
            Seq::new(
                inputs.len(),
                |i: int| path_contribution(inputs[i], max_depth, summary_only).chars,
            ),
        ),
        aggregate_of(inputs, max_depth, summary_only).total_words == crate::counting::sum_of(
            Seq::new(
                inputs.len(),
                |i: int| path_contribution(inputs[i], max_depth, summary_only).words,
            ),
        ),
        aggregate_of(inputs, max_depth, summary_only).total_non_empty_lines
            == crate::counting::sum_of(
            Seq::new(
                inputs.len(),
                |i: int| path_contribution(inputs[i], max_depth, summary_only).non_empty_lines,
            ),
        ),
{
    let items = path_contributions(inputs, max_depth, summary_only);
    crate::blocks::lemma_gather_counts(items, summary_only);
    assert(Seq::new(items.len(), |i: int| items[i].chars) =~= Seq::new(
        inputs.len(),
        |i: int| path_contribution(inputs[i], max_depth, summary_only).chars,
    ));
    assert(Seq::new(items.len(), |i: int| items[i].words) =~= Seq::new(
        inputs.len(),
        |i: int| path_contribution(inputs[i], max_depth, summary_only).words,
    ));
    assert(Seq::new(items.len(), |i: int| items[i].non_empty_lines) =~= Seq::new(
        inputs.len(),
        |i: int| path_contribution(inputs[i], max_depth, summary_only).non_empty_lines,
    ));
}

/// The paths gone through, when one more input follows.
proof fn lemma_processed_paths_concat(
    before: Seq<PathInputView>,
    after: Seq<PathInputView>,
    max_depth: nat,
    summary_only: bool,
)
    ensures
        processed_paths(before + after, max_depth, summary_only) == processed_paths(
            before,
            max_depth,
            summary_only,
        ) + processed_paths(after, max_depth, summary_only),
    decreases after.len(),
{
    if after.len() == 0 {
        assert(before + after =~= before);
        assert(processed_paths(before, max_depth, summary_only) + Seq::<Seq<char>>::empty()
            =~= processed_paths(before, max_depth, summary_only));
    } else {
        lemma_processed_paths_concat(before, after.drop_last(), max_depth, summary_only);
        assert((before + after).drop_last() =~= before + after.drop_last());
        let front = processed_paths(before, max_depth, summary_only);
        let back = processed_paths(after.drop_last(), max_depth, summary_only);
        let name = input_path(after.last()).display;
        assert((front + back).push(name) =~= front + back.push(name));
    }
}

/// An input that fails leaves no trace in the result of a run: body, totals
/// and the paths gone through are the same with it and without it, wherever
/// it stands among the inputs.
pub proof fn lemma_failed_input_adds_nothing(
    before: Seq<PathInputView>,
    failed: PathInputView,
    after: Seq<PathInputView>,
    max_depth: nat,
    summary_only: bool,
)
    requires
        path_result(failed, max_depth, summary_only) is Err,
    ensures
        aggregate_of(before.push(failed) + after, max_depth, summary_only) == aggregate_of(
            before + after,
            max_depth,
            summary_only,
        ),
{
    let with_it = path_contributions(before.push(failed) + after, max_depth, summary_only);
    let without = path_contributions(before + after, max_depth, summary_only);
    let head = path_contributions(before, max_depth, summary_only);
    let tail = path_contributions(after, max_depth, summary_only);
    assert(with_it =~= head.push(nothing()) + tail);
    assert(without =~= head + tail);
    crate::blocks::lemma_gather_skips_nothing(head, tail, summary_only);
    lemma_processed_paths_concat(before.push(failed), after, max_depth, summary_only);
    lemma_processed_paths_concat(before, after, max_depth, summary_only);
    assert(before.push(failed).drop_last() =~= before);
}

/// Where reports are not wanted, a run reports nothing.
pub proof fn lemma_aggregate_silent(
    inputs: Seq<PathInputView>,
    max_depth: nat,
    summary_only: bool,
    for_summary: bool,
)
    ensures
        aggregate_report(inputs, max_depth, summary_only, false, for_summary) == Seq::<
            char,
        >::empty(),
{
    let reports = input_reports(inputs, max_depth, summary_only, false, for_summary);
    assert forall|i: int| 0 <= i < reports.len() implies (#[trigger] reports[i]).len() == 0 by {
        match inputs[i] {
            PathInputView::Directory { path, entries } => {
                crate::directory_operations::lemma_directory_silent(
                    entries,
                    path,
                    max_depth,
                    summary_only,
                );
            },
            _ => {},
        }
    }
    crate::blocks::lemma_concat_empty(reports);
}

/// A run depends on nothing but the values of its inputs: two runs over
/// inputs of equal values, with equal options, give the same result and the
/// same reports.
pub proof fn lemma_run_repeatable(
    first: Seq<PathInput>,
    second: Seq<PathInput>,
    max_depth: nat,
    summary_only: bool,
    include_errors: bool,
    for_summary: bool,
)
    requires
        input_views(first) == input_views(second),
    ensures
        aggregate_of(input_views(first), max_depth, summary_only) == aggregate_of(
            input_views(second),
            max_depth,
            summary_only,
        ),
        aggregate_report(input_views(first), max_depth, summary_only, include_errors, for_summary)
            == aggregate_report(
            input_views(second),
            max_depth,
            summary_only,
            include_errors,
            for_summary,
        ),
{
}

/// Adds up the characters that going through `input` would count, without
/// building anything. There is no total where it cannot be held.
pub fn path_chars(cli: &Cli, input: &PathInput) -> (total: Option<usize>)
    ensures
        match total {
            Some(sum) => sum == path_contribution(
                input@,
                cli.max_depth as nat,
                cli.output_information,
            ).chars,
            None => path_contribution(input@, cli.max_depth as nat, cli.output_information).chars
                > usize::MAX,
        },
{
    match input {
        PathInput::Directory { path, entries } => directory_chars(cli, path, entries),
        PathInput::File { path, data } => {
            let base = EntryPath { display: String::new(), components: Vec::new() };
            assert(base@.components =~= Seq::<Seq<char>>::empty());
            match count_file_chars(path, &base, data) {
                Some(chars) => Some(chars),
                None => Some(0),
            }
        },
        PathInput::Other { path } => Some(0),
    }
}

/// Adds up the characters that a run over `inputs` would count, without
/// building anything. There is no total where it cannot be held; then the
/// run cannot be asked for.
pub fn total_chars(cli: &Cli, inputs: &Vec<PathInput>) -> (total: Option<usize>)
    ensures
        match total {
            Some(sum) => sum == aggregate_of(
                input_views(inputs@),
                cli.max_depth as nat,
                cli.output_information,
            ).total_chars,
            None => aggregate_of(
                input_views(inputs@),
                cli.max_depth as nat,
                cli.output_information,
            ).total_chars > usize::MAX,
        },
{
    let ghost views = input_views(inputs@);
    let ghost max_depth = cli.max_depth as nat;
    let ghost summary_only = cli.output_information;
    let mut sum: usize = 0;
    let mut i: usize = 0;
    assert(views.take(0) =~= Seq::<PathInputView>::empty());
    while i < inputs.len()
        invariant
            i <= inputs.len(),
            views == input_views(inputs@),
            max_depth == cli.max_depth as nat,
            summary_only == cli.output_information,
            sum == aggregate_of(views.take(i as int), max_depth, summary_only).total_chars,
        decreases inputs.len() - i,
    {
        proof {
            lemma_aggregate_step(views.take(i + 1), max_depth, summary_only);
            lemma_aggregate_prefix(views, i + 1, max_depth, summary_only);
            assert(views.take(i + 1).drop_last() =~= views.take(i as int));
            assert(views.take(i + 1).last() == inputs[i as int]@);
        }
        let added = match path_chars(cli, &inputs[i]) {
            Some(added) => added,
            None => {
                return None;
            },
        };
        sum = match sum.checked_add(added) {
            Some(more) => more,
            None => {
                return None;
            },
        };
        i += 1;
    }
    assert(views.take(i as int) =~= views);
    Some(sum)
}

} // verus!
