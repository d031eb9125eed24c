//! Paths held as text. Taking a path apart and putting one together is the
//! standard library's work: it knows the separators, prefixes and roots of
//! the platform the library is built for. The functions here hand text to
//! `std::path::Path` and take text back.

use std::path::Path;
use vstd::prelude::*;

verus! {

/// The path that `Path::join` makes of `base` with `part` adjoined, on the
/// platform the library is built for.
pub uninterp spec fn path_join(base: Seq<char>, part: Seq<char>) -> Seq<char>;

/// What `Path::parent` gives for `path`: the path without its final
/// component, where it has one to lose.
pub uninterp spec fn path_parent(path: Seq<char>) -> Option<Seq<char>>;

/// What `Path::file_name` gives for `path`: its final component, where that
/// is an ordinary name.
pub uninterp spec fn path_file_name(path: Seq<char>) -> Option<Seq<char>>;

/// Calls `std::path::Path::join`.
///
/// Trusted: the result is a function of the two texts alone, named
/// `path_join`. Both arguments are text, so the joined path is text too and
/// the conversion back loses nothing.
#[verifier::external_body]
pub(crate) fn join(base: &str, part: &str) -> (joined: String)
    ensures
        joined@ == path_join(base@, part@),
{
    Path::new(base).join(part).to_string_lossy().into_owned()
}

/// Calls `std::path::Path::parent`.
///
/// Trusted: whether there is a parent, and which, is a function of the text
/// alone, named `path_parent`. The parent is a part of `path`, so it is text.
#[verifier::external_body]
pub(crate) fn parent(path: &str) -> (dir: Option<String>)
    ensures
        match dir {
            Some(d) => path_parent(path@) == Some(d@),
            None => path_parent(path@) is None,
        },
{
    match Path::new(path).parent() {
        Some(dir) => Some(dir.to_string_lossy().into_owned()),
        None => None,
    }
}

/// Calls `std::path::Path::file_name`.
///
/// Trusted: whether there is a file name, and which, is a function of the
/// text alone, named `path_file_name`. The name is a part of `path`, so it is
/// text.
#[verifier::external_body]
pub(crate) fn file_name(path: &str) -> (name: Option<String>)
    ensures
        match name {
            Some(n) => path_file_name(path@) == Some(n@),
            None => path_file_name(path@) is None,
        },
{
    match Path::new(path).file_name() {
        Some(name) => Some(name.to_string_lossy().into_owned()),
        None => None,
    }
}

} // verus!
