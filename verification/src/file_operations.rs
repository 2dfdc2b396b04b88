//! Resolving one file: its label, its text and its counts.

use crate::cli::Cli;
use crate::error::TraversalError;
use crate::paths::{EntryPath, EntryPathView, display_label, get_display_path};
use crate::text::{analyze_text, file_block, format_file_output, non_empty_line_count, word_count};
use vstd::prelude::*;
use vstd::utf8::{decode_utf8, valid_utf8};

verus! {

/// What one file that was read contributes.
#[derive(Clone, Debug)]
pub struct FileResult {
    /// The label under which the file is shown.
    pub label: String,
    /// The file's block, or nothing where only counts are wanted.
    pub text: String,
    /// Unicode scalar values in the file's contents.
    pub char_count: usize,
    /// Words in the file's contents.
    pub word_count: usize,
    /// Non-empty lines in the file's contents.
    pub non_empty_line_count: usize,
}

/// The mathematical value of a [`FileResult`].
pub struct FileResultView {
    pub label: Seq<char>,
    pub text: Seq<char>,
    pub char_count: nat,
    pub word_count: nat,
    pub non_empty_line_count: nat,
}

impl View for FileResult {
    type V = FileResultView;

    open spec fn view(&self) -> FileResultView {
        FileResultView {
            label: self.label@,
            text: self.text@,
            char_count: self.char_count as nat,
            word_count: self.word_count as nat,
            non_empty_line_count: self.non_empty_line_count as nat,
        }
    }
}

/// The text that a file holds, given what reading it gave: its bytes, or
/// nothing where it could not be read. Bytes that are not UTF-8 are no text.
pub open spec fn file_text(data: Option<Seq<u8>>) -> Result<Seq<char>, TraversalError> {
    match data {
        None => Err(TraversalError::NotReadable),
        Some(bytes) => if valid_utf8(bytes) {
            Ok(decode_utf8(bytes))
        } else {
            Err(TraversalError::NotUtf8OrDecodable)
        },
    }
}

/// What resolving a file gives. The label is settled first, so a file outside
/// the base fails as such whatever reading it gave. The counts are those of
/// the contents in either mode; the text is empty where only counts are
/// wanted.
pub open spec fn resolve_file(
    file: EntryPathView,
    base: EntryPathView,
    data: Option<Seq<u8>>,
    summary_only: bool,
) -> Result<FileResultView, TraversalError> {
    match display_label(file.components, base.components) {
        None => Err(TraversalError::PathEscapesBase),
        Some(label) => match file_text(data) {
            Err(error) => Err(error),
            Ok(contents) => Ok(
                FileResultView {
                    label,
                    text: if summary_only {
                        Seq::empty()
                    } else {
                        file_block(label, contents)
                    },
                    char_count: contents.len(),
                    word_count: word_count(contents),
                    non_empty_line_count: non_empty_line_count(contents),
                },
            ),
        },
    }
}

/// The view of what reading a file gave.
pub open spec fn data_view(data: Option<Vec<u8>>) -> Option<Seq<u8>> {
    match data {
        None => None,
        Some(bytes) => Some(bytes@),
    }
}

/// `core::str::from_utf8`, with its error dropped: the bytes are returned as
/// text exactly where they are valid UTF-8, and the text is then what they
/// decode to.
#[verifier::external_body]
fn text_from_utf8(bytes: &[u8]) -> (text: Option<&str>)
    ensures
        text is Some <==> valid_utf8(bytes@),
        text matches Some(decoded) ==> decoded@ == decode_utf8(bytes@),
{
    core::str::from_utf8(bytes).ok()
}

/// Resolves the file at `file_path`, whose reading gave `data`, for a
/// traversal that started at `base_path`.
pub fn process_file_content(
    file_path: &EntryPath,
    base_path: &EntryPath,
    data: &Option<Vec<u8>>,
    output_information: bool,
) -> (result: Result<FileResult, TraversalError>)
    ensures
        match resolve_file(file_path@, base_path@, data_view(*data), output_information) {
            Ok(resolved) => result matches Ok(found) && found@ == resolved,
            Err(error) => result matches Err(found) && found == error,
        },
{
    let label = match get_display_path(file_path, base_path) {
        Ok(label) => label,
        Err(error) => {
            return Err(error);
        },
    };
    let bytes = match data {
        Some(bytes) => bytes,
        None => {
            return Err(TraversalError::NotReadable);
        },
    };
    let contents = match text_from_utf8(bytes.as_slice()) {
        Some(contents) => contents,
        None => {
            return Err(TraversalError::NotUtf8OrDecodable);
        },
    };
    let counts = analyze_text(contents);
    let text = if output_information {
        String::new()
    } else {
        format_file_output(label.as_str(), contents)
    };
    Ok(
        FileResult {
            label,
            text,
            char_count: counts.chars,
            word_count: counts.words,
            non_empty_line_count: counts.non_empty_lines,
        },
    )
}

/// Resolves a file that was named as an input: its label is its own name.
pub fn process_file(cli: &Cli, path: &EntryPath, data: &Option<Vec<u8>>) -> (result: Result<
    FileResult,
    TraversalError,
>)
    ensures
        match file_text(data_view(*data)) {
            Ok(contents) => result matches Ok(found) && found@ == (FileResultView {
                label: crate::paths::base_name(path@.components),
                text: if cli.output_information {
                    Seq::empty()
                } else {
                    file_block(crate::paths::base_name(path@.components), contents)
                },
                char_count: contents.len(),
                word_count: word_count(contents),
                non_empty_line_count: non_empty_line_count(contents),
            }),
            Err(error) => result matches Err(found) && found == error,
        },
{
    let base = EntryPath { display: String::new(), components: Vec::new() };
    assert(base@.components.len() == 0);
    process_file_content(path, &base, data, cli.output_information)
}

/// Counts the characters of a file's contents without building anything:
/// the count that resolving the file would give, and nothing where resolving
/// it would fail.
pub fn count_file_chars(file_path: &EntryPath, base_path: &EntryPath, data: &Option<Vec<u8>>) -> (chars:
    Option<usize>)
    ensures
        match resolve_file(file_path@, base_path@, data_view(*data), false) {
            Ok(resolved) => chars == Some(resolved.char_count as usize) && resolved.char_count
                <= usize::MAX,
            Err(error) => chars is None,
        },
{
    if get_display_path(file_path, base_path).is_err() {
        return None;
    }
    match data {
        None => None,
        Some(bytes) => match text_from_utf8(bytes.as_slice()) {
            None => None,
            Some(contents) => Some(contents.unicode_len()),
        },
    }
}

} // verus!
