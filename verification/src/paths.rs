//! Paths as the traversal sees them, and the label under which a file is shown.

use crate::error::TraversalError;
use vstd::prelude::*;

verus! {

/// A path of the file system, held as plain text: the way the host shows it,
/// and its components from the outermost inwards. The empty path has no
/// component.
#[derive(Clone, Debug)]
pub struct EntryPath {
    /// The path as the host shows it.
    pub display: String,
    /// The components of the path, outermost first.
    pub components: Vec<String>,
}

/// The mathematical value of an [`EntryPath`].
pub struct EntryPathView {
    pub display: Seq<char>,
    pub components: Seq<Seq<char>>,
}

impl View for EntryPath {
    type V = EntryPathView;

    open spec fn view(&self) -> EntryPathView {
        EntryPathView { display: self.display@, components: self.components.deep_view() }
    }
}

/// The segments joined by forward slashes, whatever the host's separator is.
pub open spec fn join_segments(segments: Seq<Seq<char>>) -> Seq<char>
    decreases segments.len(),
{
    if segments.len() == 0 {
        Seq::empty()
    } else if segments.len() == 1 {
        segments[0]
    } else {
        join_segments(segments.drop_last()) + seq!['/'] + segments.last()
    }
}

/// The components of the directory that holds `file`.
pub open spec fn parent_of(file: Seq<Seq<char>>) -> Seq<Seq<char>> {
    if file.len() == 0 {
        file
    } else {
        file.drop_last()
    }
}

/// The last component of `file`: its name without any directory.
pub open spec fn base_name(file: Seq<Seq<char>>) -> Seq<char> {
    if file.len() == 0 {
        Seq::empty()
    } else {
        file.last()
    }
}

/// The label of `file` relative to `base`. With an empty base, or one that is
/// the file's own directory, the label is the file's name. Otherwise it is
/// what remains of the file's path below the base, joined by forward slashes;
/// there is none where the file does not lie under the base.
pub open spec fn display_label(file: Seq<Seq<char>>, base: Seq<Seq<char>>) -> Option<Seq<char>> {
    if base.len() == 0 || base == parent_of(file) {
        Some(base_name(file))
    } else if base.is_prefix_of(file) {
        Some(join_segments(file.skip(base.len() as int)))
    } else {
        None
    }
}

/// Tells whether the components of `base` are the first components of `file`.
fn starts_with(file: &Vec<String>, base: &Vec<String>) -> (found: bool)
    ensures
        found == base.deep_view().is_prefix_of(file.deep_view()),
{
    if base.len() > file.len() {
        return false;
    }
    let mut i: usize = 0;
    while i < base.len()
        invariant
            i <= base.len() <= file.len(),
            forall|k: int| 0 <= k < i ==> file[k]@ == base[k]@,
        decreases base.len() - i,
    {
        if file[i] != base[i] {
            proof {
                let whole = file.deep_view();
                let head = base.deep_view();
                assert(whole.subrange(0, head.len() as int)[i as int] == file[i as int]@);
                assert(head[i as int] == base[i as int]@);
            }
            return false;
        }
        i += 1;
    }
    proof {
        let whole = file.deep_view();
        let head = base.deep_view();
        assert(head =~= whole.subrange(0, head.len() as int));
    }
    true
}

/// Joins the components of `file` from position `from` on by forward slashes.
fn join_from(file: &Vec<String>, from: usize) -> (text: String)
    requires
        from <= file.len(),
    ensures
        text@ == join_segments(file.deep_view().skip(from as int)),
{
    let ghost rest = file.deep_view().skip(from as int);
    let mut text = String::new();
    let mut i: usize = from;
    while i < file.len()
        invariant
            from <= i <= file.len(),
            rest == file.deep_view().skip(from as int),
            text@ == join_segments(rest.take(i - from)),
        decreases file.len() - i,
    {
        proof {
            reveal_strlit("/");
            let next = rest.take(i - from + 1);
            assert(next.drop_last() =~= rest.take(i - from));
            assert(next.last() == file[i as int]@);
            assert("/"@ =~= seq!['/']);
        }
        if i > from {
            text.append("/");
        }
        text.append(file[i].as_str());
        i += 1;
        assert(text@ =~= join_segments(rest.take(i - from)));
    }
    assert(rest.take(i - from) =~= rest);
    text
}

/// Computes the label under which `file_path` is shown in a traversal that
/// started at `base_path`.
pub fn get_display_path(file_path: &EntryPath, base_path: &EntryPath) -> (label: Result<
    String,
    TraversalError,
>)
    ensures
        match display_label(file_path@.components, base_path@.components) {
            Some(text) => label matches Ok(found) && found@ == text,
            None => label == Err::<String, TraversalError>(TraversalError::PathEscapesBase),
        },
{
    let file = &file_path.components;
    let base = &base_path.components;
    let ghost whole = file.deep_view();
    let ghost head = base.deep_view();
    if base.len() == 0 {
        if file.len() == 0 {
            Ok(String::new())
        } else {
            Ok(file[file.len() - 1].clone())
        }
    } else if starts_with(file, base) {
        proof {
            if head == parent_of(whole) {
                assert(whole.skip(head.len() as int) =~= seq![whole.last()]);
            }
        }
        Ok(join_from(file, base.len()))
    } else {
        proof {
            if head == parent_of(whole) {
                assert(head =~= whole.subrange(0, head.len() as int));
            }
        }
        Err(TraversalError::PathEscapesBase)
    }
}

} // verus!
