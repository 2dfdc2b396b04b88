//! How contributions are put together: blocks are joined with a separator
//! line between them, and counts are added up.

use crate::counting::sum_of;
use vstd::prelude::*;

verus! {

/// The separator without its line feed: eighty dashes.
pub open spec fn separator_text() -> Seq<char> {
    Seq::new(80, |i: int| '-')
}

/// The separator as it stands in a body: eighty dashes and a line feed.
pub open spec fn separator_line() -> Seq<char> {
    separator_text().push('\n')
}

/// Builds the line of dashes that is put between two blocks, without a line
/// feed.
pub fn separator() -> (line: String)
    ensures
        line@ == separator_text(),
{
    let mut line = String::new();
    let mut i: usize = 0;
    while i < 80
        invariant
            i <= 80,
            line@ == Seq::new(i as nat, |k: int| '-'),
        decreases 80 - i,
    {
        proof {
            reveal_strlit("-");
        }
        line.append("-");
        i += 1;
        assert(line@ =~= Seq::new(i as nat, |k: int| '-'));
    }
    line
}

/// A separator goes between a body and a block only where both hold
/// something and contents are wanted.
pub open spec fn needs_separator(body: Seq<char>, block: Seq<char>, summary_only: bool) -> bool {
    body.len() > 0 && block.len() > 0 && !summary_only
}

/// Tells whether a separator goes between `buffer` and `content`.
pub fn should_add_separator(buffer: &str, content: &str, output_information: bool) -> (needed:
    bool)
    ensures
        needed == needs_separator(buffer@, content@, output_information),
{
    !buffer.is_empty() && !content.is_empty() && !output_information
}

/// The body after `block` was added to it.
pub open spec fn append_block(body: Seq<char>, block: Seq<char>, summary_only: bool) -> Seq<char> {
    if needs_separator(body, block, summary_only) {
        body + separator_line() + block
    } else {
        body + block
    }
}

/// Adds `content` to `buffer`, after a separator line where one is due.
pub fn push_block(buffer: &mut String, content: &str, output_information: bool)
    ensures
        final(buffer)@ == append_block(old(buffer)@, content@, output_information),
{
    if should_add_separator(buffer.as_str(), content, output_information) {
        let line = separator();
        proof {
            reveal_strlit("\n");
        }
        buffer.append(line.as_str());
        buffer.append("\n");
        assert(buffer@ =~= old(buffer)@ + separator_line());
    }
    buffer.append(content);
}

/// What a file, a directory or an input path adds to the output: its text,
/// which may be empty, and its counts.
#[derive(Clone, Debug)]
pub struct Contribution {
    /// Blocks, with separator lines between them.
    pub text: String,
    /// Unicode scalar values in the contents read.
    pub chars: usize,
    /// Words in the contents read.
    pub words: usize,
    /// Non-empty lines in the contents read.
    pub non_empty_lines: usize,
}

/// The mathematical value of a [`Contribution`].
pub struct ContributionView {
    pub text: Seq<char>,
    pub chars: nat,
    pub words: nat,
    pub non_empty_lines: nat,
}

impl View for Contribution {
    type V = ContributionView;

    open spec fn view(&self) -> ContributionView {
        ContributionView {
            text: self.text@,
            chars: self.chars as nat,
            words: self.words as nat,
            non_empty_lines: self.non_empty_lines as nat,
        }
    }
}

/// The contribution of an entry that gives nothing.
pub open spec fn nothing() -> ContributionView {
    ContributionView { text: Seq::empty(), chars: 0, words: 0, non_empty_lines: 0 }
}

/// What has been gathered after `next` joined `gathered`.
pub open spec fn combine(gathered: ContributionView, next: ContributionView, summary_only: bool) -> ContributionView {
    ContributionView {
        text: append_block(gathered.text, next.text, summary_only),
        chars: gathered.chars + next.chars,
        words: gathered.words + next.words,
        non_empty_lines: gathered.non_empty_lines + next.non_empty_lines,
    }
}

/// The contributions put together in their order.
pub open spec fn gather(items: Seq<ContributionView>, summary_only: bool) -> ContributionView
    decreases items.len(),
{
    if items.len() == 0 {
        nothing()
    } else {
        combine(gather(items.drop_last(), summary_only), items.last(), summary_only)
    }
}

/// No count of words or lines exceeds the count of characters.
pub open spec fn counts_bounded(item: ContributionView) -> bool {
    item.words <= item.chars && item.non_empty_lines <= item.chars
}

/// Gathering one more item leaves no count smaller, and bounded counts stay
/// bounded.
pub proof fn lemma_gather_prefix(items: Seq<ContributionView>, n: int, summary_only: bool)
    requires
        0 <= n <= items.len(),
        forall|i: int| 0 <= i < items.len() ==> counts_bounded(#[trigger] items[i]),
    ensures
        gather(items.take(n), summary_only).chars <= gather(items, summary_only).chars,
        counts_bounded(gather(items.take(n), summary_only)),
    decreases items.len() - n,
{
    lemma_gather_bounded(items.take(n), summary_only);
    if n < items.len() {
        lemma_gather_prefix(items, n + 1, summary_only);
        assert(items.take(n + 1).drop_last() =~= items.take(n));
    } else {
        assert(items.take(n) =~= items);
    }
}

/// Bounded counts stay bounded when gathered.
pub proof fn lemma_gather_bounded(items: Seq<ContributionView>, summary_only: bool)
    requires
        forall|i: int| 0 <= i < items.len() ==> counts_bounded(#[trigger] items[i]),
    ensures
        counts_bounded(gather(items, summary_only)),
    decreases items.len(),
{
    if items.len() > 0 {
        lemma_gather_bounded(items.drop_last(), summary_only);
    }
}

/// The texts one after the other.
pub open spec fn concat(texts: Seq<Seq<char>>) -> Seq<char>
    decreases texts.len(),
{
    if texts.len() == 0 {
        Seq::empty()
    } else {
        concat(texts.drop_last()) + texts.last()
    }
}

/// Gathered counts are the sums of the counts of the items, in either mode.
pub proof fn lemma_gather_counts(items: Seq<ContributionView>, summary_only: bool)
    ensures
        gather(items, summary_only).chars == sum_of(Seq::new(items.len(), |i: int| items[i].chars)),
        gather(items, summary_only).words == sum_of(Seq::new(items.len(), |i: int| items[i].words)),
        gather(items, summary_only).non_empty_lines == sum_of(
            Seq::new(items.len(), |i: int| items[i].non_empty_lines),
        ),
    decreases items.len(),
{
    if items.len() > 0 {
        let front = items.drop_last();
        lemma_gather_counts(front, summary_only);
        assert(Seq::new(items.len(), |i: int| items[i].chars).drop_last() =~= Seq::new(
            front.len(),
            |i: int| front[i].chars,
        ));
        assert(Seq::new(items.len(), |i: int| items[i].words).drop_last() =~= Seq::new(
            front.len(),
            |i: int| front[i].words,
        ));
        assert(Seq::new(items.len(), |i: int| items[i].non_empty_lines).drop_last() =~= Seq::new(
            front.len(),
            |i: int| front[i].non_empty_lines,
        ));
    }
}

/// Items that give nothing gather to nothing.
pub proof fn lemma_gather_nothing(items: Seq<ContributionView>, summary_only: bool)
    requires
        forall|i: int| 0 <= i < items.len() ==> #[trigger] items[i] == nothing(),
    ensures
        gather(items, summary_only) == nothing(),
    decreases items.len(),
{
    if items.len() > 0 {
        lemma_gather_nothing(items.drop_last(), summary_only);
        assert(append_block(Seq::empty(), Seq::empty(), summary_only) =~= Seq::<char>::empty());
    }
}

/// An item that gives nothing leaves no trace: what is gathered is the same
/// with it and without it, wherever it stands.
pub proof fn lemma_gather_skips_nothing(
    before: Seq<ContributionView>,
    after: Seq<ContributionView>,
    summary_only: bool,
)
    ensures
        gather(before.push(nothing()) + after, summary_only) == gather(
            before + after,
            summary_only,
        ),
    decreases after.len(),
{
    if after.len() == 0 {
        assert(before.push(nothing()) + after =~= before.push(nothing()));
        assert(before + after =~= before);
        assert(before.push(nothing()).drop_last() =~= before);
        let gathered = gather(before, summary_only);
        assert(append_block(gathered.text, Seq::empty(), summary_only) =~= gathered.text);
    } else {
        lemma_gather_skips_nothing(before, after.drop_last(), summary_only);
        assert((before.push(nothing()) + after).drop_last() =~= before.push(nothing())
            + after.drop_last());
        assert((before + after).drop_last() =~= before + after.drop_last());
    }
}

/// Empty texts make an empty text.
pub proof fn lemma_concat_empty(texts: Seq<Seq<char>>)
    requires
        forall|i: int| 0 <= i < texts.len() ==> (#[trigger] texts[i]).len() == 0,
    ensures
        concat(texts) == Seq::<char>::empty(),
    decreases texts.len(),
{
    if texts.len() > 0 {
        lemma_concat_empty(texts.drop_last());
        assert(concat(texts) =~= Seq::<char>::empty());
    }
}

} // verus!
