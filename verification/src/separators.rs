//! Where separator lines stand in a body, and how many there are.

use crate::aggregate::{
    PathInputView,
    aggregate_of,
    input_file,
    path_contribution,
    path_contributions,
};
use crate::blocks::{ContributionView, append_block, gather, separator_line};
use crate::counting::{
    count_below,
    lemma_count_none,
    lemma_count_same,
    lemma_count_split,
    sum_of,
};
use crate::directory_operations::{
    WalkEntryView,
    directory_contribution,
    entry_contribution,
    entry_contributions,
    is_included,
};
use crate::paths::EntryPathView;
use vstd::prelude::*;

verus! {

/// A separator line stands at `i`: a line starts there, and it is made of
/// eighty dashes and a line feed.
pub open spec fn separator_at(text: Seq<char>, i: int) -> bool {
    &&& 0 <= i
    &&& i + 81 <= text.len()
    &&& (i == 0 || text[i - 1] == '\n')
    &&& forall|k: int| i <= k < i + 80 ==> text[k] == '-'
    &&& text[i + 80] == '\n'
}

/// The number of separator lines in `text`.
pub open spec fn separator_lines(text: Seq<char>) -> nat {
    count_below(text.len(), |i: int| separator_at(text, i))
}

/// The text is empty or its last line is closed by a line feed.
pub open spec fn closes_lines(text: Seq<char>) -> bool {
    text.len() == 0 || text.last() == '\n'
}

/// The number of items that hold a text.
pub open spec fn block_count(items: Seq<ContributionView>) -> nat {
    count_below(items.len(), |i: int| items[i].text.len() > 0)
}

/// The separator lines that the items hold in themselves, all together.
pub open spec fn inner_separator_lines(items: Seq<ContributionView>) -> nat {
    sum_of(Seq::new(items.len(), |i: int| separator_lines(items[i].text)))
}

/// A separator holds one separator line.
pub proof fn lemma_separator_is_one_line()
    ensures
        separator_lines(separator_line()) == 1,
        closes_lines(separator_line()),
        separator_line().len() == 81,
{
    let line = separator_line();
    let here = |i: int| separator_at(line, i);
    assert(separator_at(line, 0));
    lemma_count_split(1, 80, here);
    lemma_count_none(80, |i: int| here(i + 1));
    assert(count_below(1, here) == 1) by {
        assert(count_below(0, here) == 0);
        assert(here(0));
    }
}

/// Separator lines of two texts, one after the other: where the first closes
/// its lines, none is lost and none arises at the seam.
pub proof fn lemma_separator_lines_concat(first: Seq<char>, second: Seq<char>)
    requires
        closes_lines(first),
    ensures
        separator_lines(first + second) == separator_lines(first) + separator_lines(second),
{
    let whole = first + second;
    let in_whole = |i: int| separator_at(whole, i);
    let in_first = |i: int| separator_at(first, i);
    let in_second = |i: int| separator_at(second, i);
    let shifted = |i: int| in_whole(i + first.len());
    lemma_count_split(first.len(), second.len(), in_whole);
    assert forall|i: int| 0 <= i < first.len() implies #[trigger] in_whole(i) == in_first(i) by {
        if separator_at(whole, i) {
            if i + 81 > first.len() {
                assert(whole[first.len() - 1] == '-');
                assert(whole[first.len() - 1] == first.last());
            }
            assert forall|k: int| i <= k < i + 80 implies first[k] == '-' by {
                assert(whole[k] == '-');
            }
            assert(first[i + 80] == whole[i + 80]);
            if i > 0 {
                assert(first[i - 1] == whole[i - 1]);
            }
        }
        if separator_at(first, i) {
            assert forall|k: int| i <= k < i + 80 implies whole[k] == '-' by {
                assert(first[k] == '-');
            }
            assert(first[i + 80] == whole[i + 80]);
            if i > 0 {
                assert(first[i - 1] == whole[i - 1]);
            }
        }
    }
    assert forall|j: int| 0 <= j < second.len() implies #[trigger] shifted(j) == in_second(j) by {
        let i = j + first.len();
        if separator_at(whole, i) {
            assert forall|k: int| j <= k < j + 80 implies second[k] == '-' by {
                assert(whole[k + first.len()] == '-');
            }
            assert(second[j + 80] == whole[i + 80]);
            if j > 0 {
                assert(second[j - 1] == whole[i - 1]);
            }
        }
        if separator_at(second, j) {
            assert forall|k: int| i <= k < i + 80 implies whole[k] == '-' by {
                assert(second[k - first.len()] == '-');
            }
            assert(second[j + 80] == whole[i + 80]);
            if j > 0 {
                assert(second[j - 1] == whole[i - 1]);
            } else if first.len() > 0 {
                assert(whole[i - 1] == first.last());
            }
        }
    }
    lemma_count_same(first.len(), in_whole, in_first);
    lemma_count_same(second.len(), shifted, in_second);
}

/// Where separator lines stand. Of items that close their lines, gathered
/// for their contents: the body closes its lines, it is empty only where no
/// item holds a text, and it holds the separator lines of the items and one
/// more between every two items that hold a text.
pub proof fn lemma_separator_placement(items: Seq<ContributionView>)
    requires
        forall|i: int| 0 <= i < items.len() ==> closes_lines(#[trigger] items[i].text),
    ensures
        closes_lines(gather(items, false).text),
        gather(items, false).text.len() > 0 <==> block_count(items) > 0,
        separator_lines(gather(items, false).text) == inner_separator_lines(items) + if block_count(
            items,
        ) > 0 {
            block_count(items) - 1
        } else {
            0
        },
    decreases items.len(),
{
    if items.len() > 0 {
        let front = items.drop_last();
        let body = gather(front, false).text;
        let block = items.last().text;
        lemma_separator_placement(front);
        lemma_separator_is_one_line();
        lemma_count_same(
            front.len(),
            |i: int| front[i].text.len() > 0,
            |i: int| items[i].text.len() > 0,
        );
        assert(Seq::new(items.len(), |i: int| separator_lines(items[i].text)).drop_last()
            =~= Seq::new(front.len(), |i: int| separator_lines(front[i].text)));
        if body.len() > 0 && block.len() > 0 {
            lemma_separator_lines_concat(body, separator_line());
            lemma_separator_lines_concat(body + separator_line(), block);
            assert((body + separator_line() + block).last() == block.last());
        } else {
            lemma_separator_lines_concat(body, block);
            if block.len() > 0 {
                assert(body + block =~= block);
            } else {
                assert(body + block =~= body);
                assert(separator_lines(block) == 0);
            }
        }
    } else {
        assert(Seq::new(items.len(), |i: int| separator_lines(items[i].text)) =~= Seq::<
            nat,
        >::empty());
    }
}

/// Where only counts are wanted and no item holds a text, the body is empty:
/// it holds no separator line.
pub proof fn lemma_summary_has_no_separator(items: Seq<ContributionView>)
    requires
        forall|i: int| 0 <= i < items.len() ==> (#[trigger] items[i].text).len() == 0,
    ensures
        gather(items, true).text == Seq::<char>::empty(),
        separator_lines(gather(items, true).text) == 0,
    decreases items.len(),
{
    if items.len() > 0 {
        lemma_summary_has_no_separator(items.drop_last());
        assert(append_block(Seq::empty(), items.last().text, true) =~= Seq::<char>::empty());
    }
}

/// The number of files that a walk with the bound `max_depth` resolves.
pub open spec fn file_count(entries: Seq<WalkEntryView>, root: EntryPathView, max_depth: nat) -> nat {
    count_below(entries.len(), |i: int| is_included(entries[i], root, max_depth))
}

/// No block of a file of the walk holds a separator line of its own: no
/// line of a file's contents, and no line of its label, is made of eighty
/// dashes.
pub open spec fn blocks_are_plain(
    entries: Seq<WalkEntryView>,
    root: EntryPathView,
    max_depth: nat,
) -> bool {
    forall|i: int|
        0 <= i < entries.len() ==> separator_lines(
            #[trigger] entry_contribution(entries[i], root, max_depth, false).text,
        ) == 0
}

/// Values that are all zero add up to zero.
proof fn lemma_sum_of_zeros(values: Seq<nat>)
    requires
        forall|i: int| 0 <= i < values.len() ==> #[trigger] values[i] == 0,
    ensures
        sum_of(values) == 0,
    decreases values.len(),
{
    if values.len() > 0 {
        lemma_sum_of_zeros(values.drop_last());
    }
}

/// The separator lines of a directory. Where no block holds a separator
/// line of its own, the body of a directory in which N files are resolved
/// holds N - 1 separator lines, and none where N is zero; it is empty only
/// where N is zero, and it closes its lines. Where only counts are wanted
/// the body is empty.
pub proof fn lemma_directory_separators(
    entries: Seq<WalkEntryView>,
    root: EntryPathView,
    max_depth: nat,
)
    requires
        blocks_are_plain(entries, root, max_depth),
    ensures
        separator_lines(directory_contribution(entries, root, max_depth, false).text) == if file_count(
            entries,
            root,
            max_depth,
        ) > 0 {
            file_count(entries, root, max_depth) - 1
        } else {
            0
        },
        closes_lines(directory_contribution(entries, root, max_depth, false).text),
        directory_contribution(entries, root, max_depth, false).text.len() > 0 <==> file_count(
            entries,
            root,
            max_depth,
        ) > 0,
        directory_contribution(entries, root, max_depth, true).text == Seq::<char>::empty(),
{
    let items = entry_contributions(entries, root, max_depth, false);
    assert forall|i: int| 0 <= i < items.len() implies closes_lines(#[trigger] items[i].text) by {
        if is_included(entries[i], root, max_depth) {
            assert(items[i].text.last() == '\n');
        }
    }
    lemma_separator_placement(items);
    lemma_count_same(
        entries.len(),
        |i: int| items[i].text.len() > 0,
        |i: int| is_included(entries[i], root, max_depth),
    );
    assert forall|i: int| 0 <= i < items.len() implies separator_lines(items[i].text) == 0 by {
        assert(items[i] == entry_contribution(entries[i], root, max_depth, false));
    }
    lemma_sum_of_zeros(Seq::new(items.len(), |i: int| separator_lines(items[i].text)));
    lemma_summary_has_no_separator(entry_contributions(entries, root, max_depth, true));
}

/// The number of files that going through `input` resolves.
pub open spec fn input_file_count(input: PathInputView, max_depth: nat) -> nat {
    match input {
        PathInputView::Directory { path, entries } => file_count(entries, path, max_depth),
        PathInputView::File { path, data } => if input_file(path, data, false) is Ok {
            1
        } else {
            0
        },
        PathInputView::Other { path } => 0,
    }
}

/// The number of files that a run over `inputs` resolves.
pub open spec fn total_file_count(inputs: Seq<PathInputView>, max_depth: nat) -> nat {
    sum_of(Seq::new(inputs.len(), |i: int| input_file_count(inputs[i], max_depth)))
}

/// No block of a file of `input` holds a separator line of its own.
pub open spec fn input_is_plain(input: PathInputView, max_depth: nat) -> bool {
    match input {
        PathInputView::Directory { path, entries } => blocks_are_plain(entries, path, max_depth),
        _ => separator_lines(path_contribution(input, max_depth, false).text) == 0,
    }
}

/// One less for each value that is not zero: the sum falls by the number of
/// such values.
proof fn lemma_one_less_each(values: Seq<nat>)
    ensures
        sum_of(
            Seq::new(
                values.len(),
                |i: int|
                    if values[i] > 0 {
                        (values[i] - 1) as nat
                    } else {
                        0
                    },
            ),
        ) + count_below(values.len(), |i: int| values[i] > 0) == sum_of(values),
    decreases values.len(),
{
    if values.len() > 0 {
        let front = values.drop_last();
        lemma_one_less_each(front);
        assert(Seq::new(
            values.len(),
            |i: int|
                if values[i] > 0 {
                    (values[i] - 1) as nat
                } else {
                    0
                },
        ).drop_last() =~= Seq::new(
            front.len(),
            |i: int|
                if front[i] > 0 {
                    (front[i] - 1) as nat
                } else {
                    0
                },
        ));
        lemma_count_same(front.len(), |i: int| front[i] > 0, |i: int| values[i] > 0);
    }
}

/// The separator lines of a run. Where no block holds a separator line of
/// its own, the body of a run that resolves N files holds N - 1 separator
/// lines, and none where N is zero. Where only counts are wanted the body is
/// empty and holds none.
pub proof fn lemma_run_separators(inputs: Seq<PathInputView>, max_depth: nat)
    requires
        forall|i: int| 0 <= i < inputs.len() ==> input_is_plain(#[trigger] inputs[i], max_depth),
    ensures
        separator_lines(aggregate_of(inputs, max_depth, false).body) == if total_file_count(
            inputs,
            max_depth,
        ) > 0 {
            total_file_count(inputs, max_depth) - 1
        } else {
            0
        },
        aggregate_of(inputs, max_depth, true).body == Seq::<char>::empty(),
        separator_lines(aggregate_of(inputs, max_depth, true).body) == 0,
{
    let items = path_contributions(inputs, max_depth, false);
    let counts = Seq::new(inputs.len(), |i: int| input_file_count(inputs[i], max_depth));
    assert forall|i: int| 0 <= i < items.len() implies closes_lines(#[trigger] items[i].text)
        && (items[i].text.len() > 0 <==> counts[i] > 0) && separator_lines(items[i].text) == if counts[i]
        > 0 {
        (counts[i] - 1) as nat
    } else {
        0
    } by {
        lemma_input_separators(inputs[i], max_depth);
    }
    lemma_separator_placement(items);
    lemma_one_less_each(counts);
    lemma_count_same(inputs.len(), |i: int| items[i].text.len() > 0, |i: int| counts[i] > 0);
    assert(Seq::new(items.len(), |i: int| separator_lines(items[i].text)) =~= Seq::new(
        counts.len(),
        |i: int|
            if counts[i] > 0 {
                (counts[i] - 1) as nat
            } else {
                0
            },
    ));
    let brief = path_contributions(inputs, max_depth, true);
    assert forall|i: int| 0 <= i < brief.len() implies (#[trigger] brief[i].text).len() == 0 by {
        lemma_input_separators(inputs[i], max_depth);
    }
    lemma_summary_has_no_separator(brief);
}

/// What one input adds, as far as separator lines go.
proof fn lemma_input_separators(input: PathInputView, max_depth: nat)
    requires
        input_is_plain(input, max_depth),
    ensures
        closes_lines(path_contribution(input, max_depth, false).text),
        path_contribution(input, max_depth, false).text.len() > 0 <==> input_file_count(
            input,
            max_depth,
        ) > 0,
        separator_lines(path_contribution(input, max_depth, false).text) == if input_file_count(
            input,
            max_depth,
        ) > 0 {
            (input_file_count(input, max_depth) - 1) as nat
        } else {
            0
        },
        path_contribution(input, max_depth, true).text.len() == 0,
{
    match input {
        PathInputView::Directory { path, entries } => {
            lemma_directory_separators(entries, path, max_depth);
        },
        PathInputView::File { path, data } => {
            if input_file(path, data, false) is Ok {
                assert(path_contribution(input, max_depth, false).text.last() == '\n');
            }
        },
        PathInputView::Other { path } => {},
    }
}

} // verus!
