//! Copying a directory tree, entry by entry.

use crate::actions::{Action, ActionView};
use crate::errors::{ErrorKind, Failure, FailureView};
use crate::text::{chars_of, glue3, starts_with, string_of};
use vstd::prelude::*;

verus! {

/// The path of what lies at `relative` under `base`: `base` itself for the
/// empty path, else `base`, a slash and `relative`.
pub open spec fn joined(base: Seq<char>, relative: Seq<char>) -> Seq<char> {
    if relative.len() == 0 {
        base
    } else {
        base + seq!['/'] + relative
    }
}

/// Where `path` lies under `base`: the empty path for `base` itself; what
/// follows `base` and a slash; what follows a `base` that ends in a slash;
/// nowhere, for any other path.
pub open spec fn relative_to(path: Seq<char>, base: Seq<char>) -> Option<Seq<char>> {
    if path == base {
        Some(Seq::empty())
    } else if starts_with(path, base) && path[base.len() as int] == '/' {
        Some(path.skip(base.len() as int + 1))
    } else if starts_with(path, base) && base.len() > 0 && base.last() == '/' {
        Some(path.skip(base.len() as int))
    } else {
        None
    }
}

/// What is to be done about one entry of the tree under `source`: a
/// directory is made, and a file copied, at the same place under
/// `destination`. An entry that does not lie under `source` is refused.
pub open spec fn entry_action(
    source: Seq<char>,
    destination: Seq<char>,
    entry: Seq<char>,
    is_dir: bool,
) -> Result<ActionView, FailureView> {
    match relative_to(entry, source) {
        None => Err(FailureView { kind: ErrorKind::IoError, detail: entry }),
        Some(relative) => if is_dir {
            Ok(ActionView::CreateDir { path: joined(destination, relative) })
        } else {
            Ok(ActionView::CopyFile { from: entry, to: joined(destination, relative) })
        },
    }
}

/// A path that was put under a base lies there.
pub proof fn lemma_relative_of_joined(base: Seq<char>, relative: Seq<char>)
    ensures
        relative_to(joined(base, relative), base) == Some(relative),
{
    let path = joined(base, relative);
    if relative.len() == 0 {
        assert(relative =~= Seq::empty());
    } else {
        assert(path.take(base.len() as int) =~= base);
        assert(path[base.len() as int] == '/');
        assert(path.skip(base.len() as int + 1) =~= relative);
    }
}

/// Every place under the source is kept under the destination: the entry
/// at `relative` under `source` is made or copied at `relative` under
/// `destination`, a file from the entry itself.
pub proof fn lemma_mirror_keeps_places(
    source: Seq<char>,
    destination: Seq<char>,
    relative: Seq<char>,
    is_dir: bool,
)
    ensures
        entry_action(source, destination, joined(source, relative), is_dir) == Ok::<
            ActionView,
            FailureView,
        >(
            if is_dir {
                ActionView::CreateDir { path: joined(destination, relative) }
            } else {
                ActionView::CopyFile {
                    from: joined(source, relative),
                    to: joined(destination, relative),
                }
            },
        ),
{
    lemma_relative_of_joined(source, relative);
}

/// Whether `path[..n]` equals `base`, where `base` has `n` characters.
fn has_prefix(path: &Vec<char>, base: &Vec<char>) -> (r: bool)
    ensures
        r == starts_with(path@, base@),
{
    if base.len() > path.len() {
        return false;
    }
    let mut i: usize = 0;
    while i < base.len()
        invariant
            i <= base@.len() <= path@.len(),
            forall|j: int| 0 <= j < i ==> path@[j] == base@[j],
        decreases base@.len() - i,
    {
        if path[i] != base[i] {
            assert(path@.take(base@.len() as int)[i as int] != base@[i as int]);
            return false;
        }
        i += 1;
    }
    assert(path@.take(base@.len() as int) =~= base@);
    true
}

/// Where `path` lies under `base`.
pub fn relative_path(path: &str, base: &str) -> (r: Option<String>)
    ensures
        match relative_to(path@, base@) {
            Some(relative) => r is Some && r->Some_0@ == relative,
            None => r is None,
        },
{
    let p = chars_of(path);
    let b = chars_of(base);
    if !has_prefix(&p, &b) {
        assert(path@ != base@) by {
            if path@ == base@ {
                assert(path@.take(base@.len() as int) =~= base@);
            }
        }
        return None;
    }
    if p.len() == b.len() {
        assert(path@.take(base@.len() as int) =~= path@);
        return Some(String::new());
    }
    if p[b.len()] == '/' {
        Some(string_of(&p, b.len() + 1, p.len()))
    } else if b.len() > 0 && b[b.len() - 1] == '/' {
        Some(string_of(&p, b.len(), p.len()))
    } else {
        None
    }
}

/// The path of what lies at `relative` under `base`.
pub fn join(base: &str, relative: &str) -> (out: String)
    ensures
        out@ == joined(base@, relative@),
{
    if relative.is_empty() {
        base.to_owned()
    } else {
        proof {
            reveal_strlit("/");
            assert("/"@ =~= seq!['/']);
        }
        glue3(base, "/", relative)
    }
}

/// The first request of a copy: to make the destination itself.
pub fn mirror_begin(destination: &str) -> (action: Action)
    ensures
        action@ == (ActionView::CreateDir { path: destination@ }),
{
    Action::CreateDir { path: destination.to_owned() }
}

/// The request for one entry that the walk of the tree under `source` has
/// found: to make the directory, or to copy the file, at the same place
/// under `destination`.
pub fn mirror_entry(source: &str, destination: &str, entry: &str, is_dir: bool) -> (r: Result<
    Action,
    Failure,
>)
    ensures
        match entry_action(source@, destination@, entry@, is_dir) {
            Ok(action) => r is Ok && r->Ok_0@ == action,
            Err(failure) => r is Err && r->Err_0@ == failure,
        },
{
    match relative_path(entry, source) {
        None => Err(Failure::new(ErrorKind::IoError, entry)),
        Some(relative) => {
            let to = join(destination, relative.as_str());
            if is_dir {
                Ok(Action::CreateDir { path: to })
            } else {
                Ok(Action::CopyFile { from: entry.to_owned(), to })
            }
        },
    }
}

} // verus!
