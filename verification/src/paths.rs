//! Paths as text, with the platform's own rules for taking them apart.
//!
//! The library carries a path as a `String`. What a path's parent is, how a
//! name is joined onto a directory and how a prefix is stripped are the
//! standard library's business: each of the three is called here once, and its
//! result is given a name that the contracts of the library speak of.

use vstd::prelude::*;
use std::path::Path;
use crate::text::text_of;

verus! {

/// What `Path::parent` returns for a path, as text: the path without its
/// final component, or `None` where the path ends in a root or is empty.
pub uninterp spec fn path_parent(path: Seq<char>) -> Option<Seq<char>>;

/// What `Path::join` returns for a directory and a name joined onto it.
pub uninterp spec fn path_join(base: Seq<char>, name: Seq<char>) -> Seq<char>;

/// What `Path::strip_prefix` returns for a path and a base: the rest of the
/// path below the base, or `None` where the base is no prefix of the path.
pub uninterp spec fn path_strip_prefix(path: Seq<char>, base: Seq<char>) -> Option<Seq<char>>;

/// Calls `std::path::Path::parent`. The result is the named parent of the
/// path; where there is one, it is the path with its last component cut off
/// and hence strictly shorter.
#[verifier::external_body]
pub(crate) fn parent_of(path: &str) -> (parent: Option<String>)
    ensures
        text_of(parent) == path_parent(path@),
        parent matches Some(p) ==> p@.len() < path@.len(),
{
    match Path::new(path).parent() {
        Some(p) => Some(p.to_string_lossy().into_owned()),
        None => None,
    }
}

/// Calls `std::path::Path::join`. The result is the named join of the two.
#[verifier::external_body]
pub(crate) fn join_onto(base: &str, name: &str) -> (joined: String)
    ensures
        joined@ == path_join(base@, name@),
{
    Path::new(base).join(name).to_string_lossy().into_owned()
}

/// Calls `std::path::Path::strip_prefix`. The result is the named rest of the
/// path below the base, and `None` where the call reports that the base is no
/// prefix.
#[verifier::external_body]
pub(crate) fn strip_base(path: &str, base: &str) -> (rest: Option<String>)
    ensures
        text_of(rest) == path_strip_prefix(path@, base@),
{
    match Path::new(path).strip_prefix(base) {
        Ok(p) => Some(p.to_string_lossy().into_owned()),
        Err(_) => None,
    }
}

/// The path as the matcher sees it: relative to the root where it lies below
/// the root, and unchanged where it does not.
pub open spec fn relative_to(root: Seq<char>, path: Seq<char>) -> Seq<char> {
    match path_strip_prefix(path, root) {
        Some(rest) => rest,
        None => path,
    }
}

/// Makes a path relative to the root; a path outside the root is returned as
/// it is.
pub fn relativize(root: &str, path: &str) -> (relative: String)
    ensures
        relative@ == relative_to(root@, path@),
{
    match strip_base(path, root) {
        Some(rest) => rest,
        None => path.to_owned(),
    }
}

} // verus!
