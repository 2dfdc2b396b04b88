//! Walking a directory: which of its entries are resolved, what they add to
//! the body and to the counts, and what is reported of those that fail.

use crate::blocks::{
    Contribution,
    ContributionView,
    concat,
    counts_bounded,
    gather,
    lemma_gather_prefix,
    nothing,
    push_block,
};
use crate::cli::Cli;
use crate::error::{TraversalError, error_text};
use crate::file_operations::{
    FileResultView,
    count_file_chars,
    data_view,
    process_file_content,
    resolve_file,
};
use crate::paths::{EntryPath, EntryPathView};
use crate::counting::lemma_count_below_bound;
use vstd::prelude::*;

verus! {

/// One thing that a walk of a directory met, in the order of the walk. The
/// directory walked is at depth zero and the entries in it at depth one.
#[derive(Clone, Debug)]
pub enum WalkEntry {
    /// A regular file, with what reading it gave: its bytes, or nothing where
    /// it could not be read.
    File { path: EntryPath, depth: usize, data: Option<Vec<u8>> },
    /// Anything that is no regular file: a directory, a link, a device.
    Other { path: EntryPath, depth: usize },
    /// An entry that could not be looked at, with the walker's account of it.
    Failed { message: String },
}

/// The mathematical value of a [`WalkEntry`].
pub enum WalkEntryView {
    File { path: EntryPathView, depth: nat, data: Option<Seq<u8>> },
    Other { path: EntryPathView, depth: nat },
    Failed { message: Seq<char> },
}

impl View for WalkEntry {
    type V = WalkEntryView;

    open spec fn view(&self) -> WalkEntryView {
        match *self {
            WalkEntry::File { path, depth, data } => WalkEntryView::File {
                path: path@,
                depth: depth as nat,
                data: data_view(data),
            },
            WalkEntry::Other { path, depth } => WalkEntryView::Other {
                path: path@,
                depth: depth as nat,
            },
            WalkEntry::Failed { message } => WalkEntryView::Failed { message: message@ },
        }
    }
}

/// The values of the entries of a walk.
pub open spec fn entry_views(entries: Seq<WalkEntry>) -> Seq<WalkEntryView> {
    Seq::new(entries.len(), |i: int| entries[i]@)
}

/// An entry at `depth` lies in the directory walked and within the bound.
/// With a bound of zero no entry does.
pub open spec fn within_depth(depth: nat, max_depth: nat) -> bool {
    1 <= depth <= max_depth
}

/// What resolving `entry` gives, where it is a regular file within the bound;
/// nothing for every other entry.
pub open spec fn entry_file(
    entry: WalkEntryView,
    root: EntryPathView,
    max_depth: nat,
    summary_only: bool,
) -> Option<Result<FileResultView, TraversalError>> {
    match entry {
        WalkEntryView::File { path, depth, data } => if within_depth(depth, max_depth) {
            Some(resolve_file(path, root, data, summary_only))
        } else {
            None
        },
        _ => None,
    }
}

/// What `entry` adds: the block and the counts of a file that resolved, and
/// nothing otherwise.
pub open spec fn entry_contribution(
    entry: WalkEntryView,
    root: EntryPathView,
    max_depth: nat,
    summary_only: bool,
) -> ContributionView {
    match entry_file(entry, root, max_depth, summary_only) {
        Some(Ok(file)) => ContributionView {
            text: file.text,
            chars: file.char_count,
            words: file.word_count,
            non_empty_lines: file.non_empty_line_count,
        },
        _ => nothing(),
    }
}

/// What each entry of a walk adds, in the order of the walk.
pub open spec fn entry_contributions(
    entries: Seq<WalkEntryView>,
    root: EntryPathView,
    max_depth: nat,
    summary_only: bool,
) -> Seq<ContributionView> {
    Seq::new(entries.len(), |i: int| entry_contribution(entries[i], root, max_depth, summary_only))
}

/// What a directory adds: the contributions of its entries, gathered in the
/// order of the walk.
pub open spec fn directory_contribution(
    entries: Seq<WalkEntryView>,
    root: EntryPathView,
    max_depth: nat,
    summary_only: bool,
) -> ContributionView {
    gather(entry_contributions(entries, root, max_depth, summary_only), summary_only)
}

/// The report of a file that could not be resolved.
pub open spec fn file_error_report(path: Seq<char>, error: TraversalError) -> Seq<char> {
    "**"@ + path + ":**\n"@ + "ERROR: Failed to process file: "@ + error_text(error, path) + "\n"@
}

/// The report of an entry of `directory` that could not be looked at.
pub open spec fn walk_error_report(directory: Seq<char>, message: Seq<char>) -> Seq<char> {
    "ERROR: Failed to read entry in "@ + directory + ": "@ + message + "\n"@
}

/// What is reported of `entry`: nothing unless reports are wanted; then the
/// failure of a file within the bound, or of an entry that could not be
/// looked at.
pub open spec fn entry_report(
    entry: WalkEntryView,
    root: EntryPathView,
    max_depth: nat,
    summary_only: bool,
    include_errors: bool,
) -> Seq<char> {
    if !include_errors {
        Seq::empty()
    } else {
        match entry {
            WalkEntryView::Failed { message } => walk_error_report(root.display, message),
            WalkEntryView::File { path, depth, data } => match entry_file(
                entry,
                root,
                max_depth,
                summary_only,
            ) {
                Some(Err(error)) => file_error_report(path.display, error),
                _ => Seq::empty(),
            },
            WalkEntryView::Other { path, depth } => Seq::empty(),
        }
    }
}

/// What is reported of each entry of a walk, in the order of the walk.
pub open spec fn entry_reports(
    entries: Seq<WalkEntryView>,
    root: EntryPathView,
    max_depth: nat,
    summary_only: bool,
    include_errors: bool,
) -> Seq<Seq<char>> {
    Seq::new(
        entries.len(),
        |i: int| entry_report(entries[i], root, max_depth, summary_only, include_errors),
    )
}

/// What a walk reports: the reports of its entries, one after the other.
pub open spec fn directory_report(
    entries: Seq<WalkEntryView>,
    root: EntryPathView,
    max_depth: nat,
    summary_only: bool,
    include_errors: bool,
) -> Seq<char> {
    concat(entry_reports(entries, root, max_depth, summary_only, include_errors))
}

/// Reports a file that could not be resolved, where reports are wanted.
pub fn handle_file_error(
    path: &EntryPath,
    error: TraversalError,
    include_errors: bool,
    errors: &mut String,
)
    ensures
        final(errors)@ == old(errors)@ + if include_errors {
            file_error_report(path@.display, error)
        } else {
            Seq::empty()
        },
{
    if include_errors {
        let cause = error.describe(path.display.as_str());
        errors.append("**");
        errors.append(path.display.as_str());
        errors.append(":**\n");
        errors.append("ERROR: Failed to process file: ");
        errors.append(cause.as_str());
        errors.append("\n");
        assert(errors@ =~= old(errors)@ + file_error_report(path@.display, error));
    } else {
        assert(errors@ =~= old(errors)@ + Seq::<char>::empty());
    }
}

/// Reports an entry of `directory` that could not be looked at, where reports
/// are wanted.
pub fn handle_walk_error(
    directory: &EntryPath,
    message: &str,
    include_errors: bool,
    errors: &mut String,
)
    ensures
        final(errors)@ == old(errors)@ + if include_errors {
            walk_error_report(directory@.display, message@)
        } else {
            Seq::empty()
        },
{
    if include_errors {
        errors.append("ERROR: Failed to read entry in ");
        errors.append(directory.display.as_str());
        errors.append(": ");
        errors.append(message);
        errors.append("\n");
        assert(errors@ =~= old(errors)@ + walk_error_report(directory@.display, message@));
    } else {
        assert(errors@ =~= old(errors)@ + Seq::<char>::empty());
    }
}

/// The counts of words and lines of what an entry adds do not exceed its
/// count of characters.
pub proof fn lemma_entry_counts_bounded(
    entry: WalkEntryView,
    root: EntryPathView,
    max_depth: nat,
    summary_only: bool,
)
    ensures
        counts_bounded(entry_contribution(entry, root, max_depth, summary_only)),
{
    match entry_file(entry, root, max_depth, summary_only) {
        Some(Ok(file)) => {
            let contents = crate::file_operations::file_text(entry->File_data)->Ok_0;
            lemma_count_below_bound(contents.len(), |i: int| crate::text::starts_word(contents, i));
            lemma_count_below_bound(
                contents.len(),
                |i: int| crate::text::starts_line_content(contents, i),
            );
        },
        _ => {},
    }
}

/// Walks the entries of `directory` in their order. Every regular file within
/// the bound is resolved relative to `directory`; its block joins the body
/// and its counts the totals. Every other entry adds nothing, and a failure
/// is reported to `errors` where reports are wanted.
pub fn process_directory(
    cli: &Cli,
    directory: &EntryPath,
    entries: &Vec<WalkEntry>,
    errors: &mut String,
) -> (result: Contribution)
    requires
        directory_contribution(
            entry_views(entries@),
            directory@,
            cli.max_depth as nat,
            cli.output_information,
        ).chars <= usize::MAX,
    ensures
        result@ == directory_contribution(
            entry_views(entries@),
            directory@,
            cli.max_depth as nat,
            cli.output_information,
        ),
        final(errors)@ == old(errors)@ + directory_report(
            entry_views(entries@),
            directory@,
            cli.max_depth as nat,
            cli.output_information,
            cli.include_errors,
        ),
{
    let ghost views = entry_views(entries@);
    let ghost root = directory@;
    let ghost max_depth = cli.max_depth as nat;
    let ghost summary_only = cli.output_information;
    let ghost items = entry_contributions(views, root, max_depth, summary_only);
    let ghost reports = entry_reports(views, root, max_depth, summary_only, cli.include_errors);
    let mut buffer = String::new();
    let mut total_chars: usize = 0;
    let mut total_words: usize = 0;
    let mut total_lines: usize = 0;
    let mut i: usize = 0;
    proof {
        assert(items.take(0) =~= Seq::<ContributionView>::empty());
        assert(reports.take(0) =~= Seq::<Seq<char>>::empty());
        assert(errors@ =~= old(errors)@ + Seq::<char>::empty());
        assert forall|k: int| 0 <= k < items.len() implies counts_bounded(#[trigger] items[k]) by {
            lemma_entry_counts_bounded(views[k], root, max_depth, summary_only);
        }
    }
    while i < entries.len()
        invariant
            i <= entries.len(),
            views == entry_views(entries@),
            root == directory@,
            max_depth == cli.max_depth as nat,
            summary_only == cli.output_information,
            items == entry_contributions(views, root, max_depth, summary_only),
            forall|k: int| 0 <= k < items.len() ==> counts_bounded(#[trigger] items[k]),
            gather(items, summary_only).chars <= usize::MAX,
            (ContributionView {
                text: buffer@,
                chars: total_chars as nat,
                words: total_words as nat,
                non_empty_lines: total_lines as nat,
            }) == gather(items.take(i as int), summary_only),
            reports == entry_reports(views, root, max_depth, summary_only, cli.include_errors),
            errors@ == old(errors)@ + concat(reports.take(i as int)),
        decreases entries.len() - i,
    {
        proof {
            lemma_gather_prefix(items, i + 1, summary_only);
            assert(items.take(i + 1).drop_last() =~= items.take(i as int));
            assert(items.take(i + 1).last() == entry_contribution(
                views[i as int],
                root,
                max_depth,
                summary_only,
            ));
            assert(views[i as int] == entries[i as int]@);
            assert(reports.take(i + 1).drop_last() =~= reports.take(i as int));
        }
        let ghost reported = errors@;
        let ghost report = entry_report(
            views[i as int],
            root,
            max_depth,
            summary_only,
            cli.include_errors,
        );
        match &entries[i] {
            WalkEntry::Failed { message } => {
                handle_walk_error(directory, message.as_str(), cli.include_errors, errors);
            },
            WalkEntry::Other { path, depth } => {
                assert(errors@ =~= reported + report);
            },
            WalkEntry::File { path, depth, data } => {
                if 1 <= *depth && *depth <= cli.max_depth {
                    match process_file_content(path, directory, data, cli.output_information) {
                        Ok(file) => {
                            total_chars += file.char_count;
                            total_words += file.word_count;
                            total_lines += file.non_empty_line_count;
                            push_block(&mut buffer, file.text.as_str(), cli.output_information);
                            assert(errors@ =~= reported + report);
                        },
                        Err(error) => {
                            handle_file_error(path, error, cli.include_errors, errors);
                        },
                    }
                } else {
                    assert(errors@ =~= reported + report);
                }
            },
        }
        assert(errors@ =~= old(errors)@ + concat(reports.take(i + 1)));
        i += 1;
    }
    assert(items.take(i as int) =~= items);
    assert(reports.take(i as int) =~= reports);
    Contribution {
        text: buffer,
        chars: total_chars,
        words: total_words,
        non_empty_lines: total_lines,
    }
}

/// The entry is a regular file within the bound that resolves: its block
/// stands in the body and its counts in the totals.
pub open spec fn is_included(entry: WalkEntryView, root: EntryPathView, max_depth: nat) -> bool {
    entry_file(entry, root, max_depth, false) matches Some(Ok(file))
}

/// The positions, in the order of the walk, of the files that a walk with
/// the bound `max_depth` resolves.
pub open spec fn included_entries(
    entries: Seq<WalkEntryView>,
    root: EntryPathView,
    max_depth: nat,
) -> Set<int> {
    Set::new(|i: int| 0 <= i < entries.len() && is_included(entries[i], root, max_depth))
}

/// The characters that `entry` counts for, whatever the mode: those of its
/// contents where it is resolved, none otherwise.
pub open spec fn entry_chars(entry: WalkEntryView, root: EntryPathView, max_depth: nat) -> nat {
    match entry_file(entry, root, max_depth, false) {
        Some(Ok(file)) => file.char_count,
        _ => 0,
    }
}

/// The words that `entry` counts for, whatever the mode.
pub open spec fn entry_words(entry: WalkEntryView, root: EntryPathView, max_depth: nat) -> nat {
    match entry_file(entry, root, max_depth, false) {
        Some(Ok(file)) => file.word_count,
        _ => 0,
    }
}

/// The non-empty lines that `entry` counts for, whatever the mode.
pub open spec fn entry_lines(entry: WalkEntryView, root: EntryPathView, max_depth: nat) -> nat {
    match entry_file(entry, root, max_depth, false) {
        Some(Ok(file)) => file.non_empty_line_count,
        _ => 0,
    }
}

/// A deeper walk loses nothing: every file that a walk resolves with the bound
/// `max_depth` is resolved with the bound `max_depth + 1` too, and adds the
/// same there.
pub proof fn lemma_depth_monotonic(
    entries: Seq<WalkEntryView>,
    root: EntryPathView,
    max_depth: nat,
    summary_only: bool,
)
    ensures
        included_entries(entries, root, max_depth).subset_of(
            included_entries(entries, root, max_depth + 1),
        ),
        forall|i: int| #[trigger]
            included_entries(entries, root, max_depth).contains(i) ==> entry_contribution(
                entries[i],
                root,
                max_depth,
                summary_only,
            ) == entry_contribution(entries[i], root, max_depth + 1, summary_only),
{
}

/// With a bound of zero a walk resolves no file and gives nothing, whatever
/// the directory holds.
pub proof fn lemma_depth_zero_gives_nothing(
    entries: Seq<WalkEntryView>,
    root: EntryPathView,
    summary_only: bool,
)
    ensures
        included_entries(entries, root, 0) == Set::<int>::empty(),
        directory_contribution(entries, root, 0, summary_only) == nothing(),
{
    assert(included_entries(entries, root, 0) =~= Set::<int>::empty());
    crate::blocks::lemma_gather_nothing(
        entry_contributions(entries, root, 0, summary_only),
        summary_only,
    );
}

/// The totals of a directory are the sums, over its
/// entries, of the counts of each file that is resolved, in either mode.
pub proof fn lemma_directory_counts(
    entries: Seq<WalkEntryView>,
    root: EntryPathView,
    max_depth: nat,
    summary_only: bool,
)
    ensures
        directory_contribution(entries, root, max_depth, summary_only).chars
            == crate::counting::sum_of(
            Seq::new(entries.len(), |i: int| entry_chars(entries[i], root, max_depth)),
        ),
        directory_contribution(entries, root, max_depth, summary_only).words
            == crate::counting::sum_of(
            Seq::new(entries.len(), |i: int| entry_words(entries[i], root, max_depth)),
        ),
        directory_contribution(entries, root, max_depth, summary_only).non_empty_lines
            == crate::counting::sum_of(
            Seq::new(entries.len(), |i: int| entry_lines(entries[i], root, max_depth)),
        ),
{
    let items = entry_contributions(entries, root, max_depth, summary_only);
    crate::blocks::lemma_gather_counts(items, summary_only);
    assert(Seq::new(items.len(), |i: int| items[i].chars) =~= Seq::new(
        entries.len(),
        |i: int| entry_chars(entries[i], root, max_depth),
    ));
    assert(Seq::new(items.len(), |i: int| items[i].words) =~= Seq::new(
        entries.len(),
        |i: int| entry_words(entries[i], root, max_depth),
    ));
    assert(Seq::new(items.len(), |i: int| items[i].non_empty_lines) =~= Seq::new(
        entries.len(),
        |i: int| entry_lines(entries[i], root, max_depth),
    ));
}

/// An entry that is not resolved, for whatever reason,
/// leaves no trace in what the directory gives: body and totals are the same
/// with it and without it, wherever it stands in the walk.
pub proof fn lemma_failed_entry_adds_nothing(
    before: Seq<WalkEntryView>,
    failed: WalkEntryView,
    after: Seq<WalkEntryView>,
    root: EntryPathView,
    max_depth: nat,
    summary_only: bool,
)
    requires
        !is_included(failed, root, max_depth),
    ensures
        directory_contribution(before.push(failed) + after, root, max_depth, summary_only)
            == directory_contribution(before + after, root, max_depth, summary_only),
{
    let with_it = entry_contributions(before.push(failed) + after, root, max_depth, summary_only);
    let without = entry_contributions(before + after, root, max_depth, summary_only);
    let head = entry_contributions(before, root, max_depth, summary_only);
    let tail = entry_contributions(after, root, max_depth, summary_only);
    assert(with_it =~= head.push(nothing()) + tail);
    assert(without =~= head + tail);
    crate::blocks::lemma_gather_skips_nothing(head, tail, summary_only);
}

/// Where reports are not wanted, a walk reports nothing.
pub proof fn lemma_directory_silent(
    entries: Seq<WalkEntryView>,
    root: EntryPathView,
    max_depth: nat,
    summary_only: bool,
)
    ensures
        directory_report(entries, root, max_depth, summary_only, false) == Seq::<char>::empty(),
{
    crate::blocks::lemma_concat_empty(
        entry_reports(entries, root, max_depth, summary_only, false),
    );
}

/// Adds up the characters that a walk of `directory` would count, without
/// building anything. There is no total where it cannot be held; then
/// [`process_directory`] cannot be asked.
pub fn directory_chars(cli: &Cli, directory: &EntryPath, entries: &Vec<WalkEntry>) -> (total: Option<
    usize,
>)
    ensures
        match total {
            Some(sum) => sum == directory_contribution(
                entry_views(entries@),
                directory@,
                cli.max_depth as nat,
                cli.output_information,
            ).chars,
            None => directory_contribution(
                entry_views(entries@),
                directory@,
                cli.max_depth as nat,
                cli.output_information,
            ).chars > usize::MAX,
        },
{
    let ghost views = entry_views(entries@);
    let ghost root = directory@;
    let ghost max_depth = cli.max_depth as nat;
    let ghost summary_only = cli.output_information;
    let ghost items = entry_contributions(views, root, max_depth, summary_only);
    let mut sum: usize = 0;
    let mut i: usize = 0;
    proof {
        assert(items.take(0) =~= Seq::<ContributionView>::empty());
        assert forall|k: int| 0 <= k < items.len() implies counts_bounded(#[trigger] items[k]) by {
            lemma_entry_counts_bounded(views[k], root, max_depth, summary_only);
        }
    }
    while i < entries.len()
        invariant
            i <= entries.len(),
            views == entry_views(entries@),
            root == directory@,
            max_depth == cli.max_depth as nat,
            summary_only == cli.output_information,
            items == entry_contributions(views, root, max_depth, summary_only),
            forall|k: int| 0 <= k < items.len() ==> counts_bounded(#[trigger] items[k]),
            sum == gather(items.take(i as int), summary_only).chars,
        decreases entries.len() - i,
    {
        proof {
            lemma_gather_prefix(items, i + 1, summary_only);
            assert(items.take(i + 1).drop_last() =~= items.take(i as int));
            assert(items.take(i + 1).last() == entry_contribution(
                views[i as int],
                root,
                max_depth,
                summary_only,
            ));
            assert(views[i as int] == entries[i as int]@);
        }
        match &entries[i] {
            WalkEntry::File { path, depth, data } => {
                if 1 <= *depth && *depth <= cli.max_depth {
                    match count_file_chars(path, directory, data) {
                        Some(chars) => {
                            match sum.checked_add(chars) {
                                Some(more) => {
                                    sum = more;
                                },
                                None => {
                                    return None;
                                },
                            }
                        },
                        None => {},
                    }
                }
            },
            _ => {},
        }
        i += 1;
    }
    assert(items.take(i as int) =~= items);
    Some(sum)
}

} // verus!
