//! File-system paths as strings. Nothing here touches the file system: the
//! functions take a path apart and put one together, as `std::path` and
//! `normalize_path` do on the platform that the library is built for.

use normalize_path::NormalizePath;
use std::path::Path;
use vstd::prelude::*;

verus! {

/// Whether `std::path::Path::has_root` holds of a path.
pub uninterp spec fn path_has_root(path: Seq<char>) -> bool;

/// The path that `std::path::Path::with_file_name` makes of a path and a
/// file name.
pub uninterp spec fn path_with_file_name(path: Seq<char>, name: Seq<char>) -> Seq<char>;

/// The path that `normalize_path::NormalizePath::normalize` makes of a path.
pub uninterp spec fn normalized_path(path: Seq<char>) -> Seq<char>;

/// The last component of a path, as `std::path::Path::file_name` gives it.
pub uninterp spec fn path_file_name(path: Seq<char>) -> Option<Seq<char>>;

/// Calls `Path::has_root`. Whether a path has a root depends on its text
/// alone.
#[verifier::external_body]
pub(crate) fn has_root(path: &str) -> (rooted: bool)
    ensures
        rooted == path_has_root(path@),
{
    Path::new(path).has_root()
}

/// Calls `Path::with_file_name`, which puts `name` in the place of the last
/// component of `path`. Made of two strings, the result is a string.
#[verifier::external_body]
pub(crate) fn with_file_name(path: &str, name: &str) -> (sibling: String)
    ensures
        sibling@ == path_with_file_name(path@, name@),
{
    Path::new(path).with_file_name(name).to_string_lossy().into_owned()
}

/// Calls `NormalizePath::normalize`, which drops `.` components and lets
/// each `..` take back the component before it, without looking at the
/// file system.
#[verifier::external_body]
pub(crate) fn normalize(path: &str) -> (normal: String)
    ensures
        normal@ == normalized_path(path@),
{
    Path::new(path).normalize().to_string_lossy().into_owned()
}

/// Calls `Path::file_name`: the last component of the path, if it is the
/// name of a file or directory.
#[verifier::external_body]
pub(crate) fn file_name(path: &str) -> (name: Option<String>)
    ensures
        name is Some == path_file_name(path@) is Some,
        name matches Some(n) ==> Some(n@) == path_file_name(path@),
{
    Path::new(path).file_name().map(|n| n.to_string_lossy().into_owned())
}

/// Where a file named `name` lies that stands beside the file `beside`.
pub open spec fn sibling_of(beside: Seq<char>, name: Seq<char>) -> Seq<char> {
    normalized_path(path_with_file_name(beside, name))
}

/// Where a file named `name` lies that stands beside the file `beside`, with
/// `.` and `..` resolved.
pub fn resolve_beside(beside: &str, name: &str) -> (path: String)
    ensures
        path@ == sibling_of(beside@, name@),
{
    let joined = with_file_name(beside, name);
    normalize(joined.as_str())
}

/// Whether the path begins at a root.
pub fn is_rooted(path: &str) -> (rooted: bool)
    ensures
        rooted == path_has_root(path@),
{
    has_root(path)
}

/// The name of the file at the end of the path; empty where the path ends
/// in none.
pub open spec fn final_name(path: Seq<char>) -> Seq<char> {
    match path_file_name(path) {
        Some(name) => name,
        None => Seq::empty(),
    }
}

/// The name of the file at the end of the path; empty where the path ends
/// in none.
pub fn final_name_of(path: &str) -> (name: String)
    ensures
        name@ == final_name(path@),
{
    match file_name(path) {
        Some(name) => name,
        None => String::new(),
    }
}

} // verus!
