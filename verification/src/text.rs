//! Text analysis: how many characters, words and non-empty lines a text has,
//! and how a file's contents are framed as a labelled block.

use crate::counting::{count_below, lemma_count_below_bound};
use vstd::prelude::*;

verus! {

/// Whether `c` is white space: one of the code points that Unicode classes as
/// `White_Space`.
pub open spec fn is_whitespace_char(c: char) -> bool {
    let u = c as u32;
    ||| 0x0009 <= u <= 0x000D
    ||| u == 0x0020
    ||| u == 0x0085
    ||| u == 0x00A0
    ||| u == 0x1680
    ||| 0x2000 <= u <= 0x200A
    ||| u == 0x2028
    ||| u == 0x2029
    ||| u == 0x202F
    ||| u == 0x205F
    ||| u == 0x3000
}

/// Tells whether `c` is white space.
pub fn is_whitespace(c: char) -> (b: bool)
    ensures
        b == is_whitespace_char(c),
{
    let u: u32 = c as u32;
    (0x0009 <= u && u <= 0x000D) || u == 0x0020 || u == 0x0085 || u == 0x00A0 || u == 0x1680
        || (0x2000 <= u && u <= 0x200A) || u == 0x2028 || u == 0x2029 || u == 0x202F || u == 0x205F
        || u == 0x3000
}

/// A word starts at `i`: the character there is not white space, and it is
/// the first of the text or follows white space.
pub open spec fn starts_word(s: Seq<char>, i: int) -> bool {
    &&& 0 <= i < s.len()
    &&& !is_whitespace_char(s[i])
    &&& (i == 0 || is_whitespace_char(s[i - 1]))
}

/// The number of words in `s`: maximal runs of characters that are not white
/// space. Each run is counted at its first character.
pub open spec fn word_count(s: Seq<char>) -> nat {
    count_below(s.len(), |i: int| starts_word(s, i))
}

/// No line feed stands at a position from `from` up to, not including, `to`:
/// the two positions lie on one line.
pub open spec fn on_one_line(s: Seq<char>, from: int, to: int) -> bool {
    forall|k: int| from <= k < to ==> s[k] != '\n'
}

/// Some character before `i`, on the line that `i` stands on, is not white
/// space.
pub open spec fn has_content_before(s: Seq<char>, i: int) -> bool {
    exists|j: int| 0 <= j < i && #[trigger] on_one_line(s, j, i) && !is_whitespace_char(s[j])
}

/// The character at `i` is the first on its line that is not white space.
pub open spec fn starts_line_content(s: Seq<char>, i: int) -> bool {
    &&& 0 <= i < s.len()
    &&& !is_whitespace_char(s[i])
    &&& !has_content_before(s, i)
}

/// The number of lines of `s` that hold a character other than white space,
/// where a line feed ends a line. Each such line is counted at the first such
/// character on it.
pub open spec fn non_empty_line_count(s: Seq<char>) -> nat {
    count_below(s.len(), |i: int| starts_line_content(s, i))
}

/// What the analysis of one text yields.
#[derive(Clone, Copy, Debug, PartialEq, Eq)]
pub struct TextCounts {
    /// Unicode scalar values in the text.
    pub chars: usize,
    /// Maximal runs of characters that are not white space.
    pub words: usize,
    /// Lines that hold a character other than white space.
    pub non_empty_lines: usize,
}

/// Counts the characters, the words and the non-empty lines of `contents`.
pub fn analyze_text(contents: &str) -> (counts: TextCounts)
    ensures
        counts.chars == contents@.len(),
        counts.words == word_count(contents@),
        counts.non_empty_lines == non_empty_line_count(contents@),
{
    let ghost s = contents@;
    let ghost word_start = |i: int| starts_word(s, i);
    let ghost line_start = |i: int| starts_line_content(s, i);
    let chars: usize = contents.unicode_len();
    let mut words: usize = 0;
    let mut non_empty_lines: usize = 0;
    let mut after_whitespace: bool = true;
    let mut line_has_content: bool = false;
    for c in it: contents.chars()
        invariant
            it.seq() == s,
            s.len() == chars,
            word_start == |i: int| starts_word(s, i),
            line_start == |i: int| starts_line_content(s, i),
            words == count_below(it.index() as nat, word_start),
            non_empty_lines == count_below(it.index() as nat, line_start),
            after_whitespace == (it.index() == 0 || is_whitespace_char(s[it.index() - 1])),
            line_has_content == has_content_before(s, it.index()),
    {
        let ghost i = it.index();
        let blank = is_whitespace(c);
        proof {
            lemma_count_below_bound(i as nat, word_start);
            lemma_count_below_bound(i as nat, line_start);
            assert(word_start(i) == starts_word(s, i));
            assert(line_start(i) == starts_line_content(s, i));
        }
        if !blank && after_whitespace {
            words += 1;
        }
        if c == '\n' {
            proof {
                assert forall|j: int| 0 <= j < i + 1 implies !#[trigger] on_one_line(s, j, i + 1) by {
                    assert(s[i] == '\n');
                }
            }
            line_has_content = false;
        } else if !blank {
            if !line_has_content {
                non_empty_lines += 1;
            }
            proof {
                assert(on_one_line(s, i, i + 1));
            }
            line_has_content = true;
        } else {
            proof {
                if has_content_before(s, i) {
                    let j = choose|j: int|
                        0 <= j < i && #[trigger] on_one_line(s, j, i) && !is_whitespace_char(s[j]);
                    assert(on_one_line(s, j, i + 1));
                }
                if has_content_before(s, i + 1) {
                    let j = choose|j: int|
                        0 <= j < i + 1 && #[trigger] on_one_line(s, j, i + 1)
                            && !is_whitespace_char(s[j]);
                    assert(on_one_line(s, j, i));
                }
            }
        }
        after_whitespace = blank;
    }
    TextCounts { chars, words, non_empty_lines }
}

/// The block that stands for one file in the output: the label between
/// `**` and `:**`, a line feed, the contents as they are, and a line feed.
pub open spec fn file_block(label: Seq<char>, contents: Seq<char>) -> Seq<char> {
    seq!['*', '*'] + label + seq![':', '*', '*', '\n'] + contents + seq!['\n']
}

/// Frames `contents` under `display_path`. The contents are copied as they
/// are, with nothing escaped.
pub fn format_file_output(display_path: &str, contents: &str) -> (block: String)
    ensures
        block@ == file_block(display_path@, contents@),
{
    proof {
        reveal_strlit("**");
        reveal_strlit(":**\n");
        reveal_strlit("\n");
        assert("**"@ =~= seq!['*', '*']);
        assert(":**\n"@ =~= seq![':', '*', '*', '\n']);
        assert("\n"@ =~= seq!['\n']);
    }
    let mut block = String::new();
    block.append("**");
    block.append(display_path);
    block.append(":**\n");
    block.append(contents);
    block.append("\n");
    assert(block@ =~= file_block(display_path@, contents@));
    block
}

} // verus!
