use std::path::Path;

use vstd::prelude::*;

verus! {

/// What `std::path::Path::parent` gives for the path written as `s`, as text.
pub uninterp spec fn spec_path_parent(s: Seq<char>) -> Option<Seq<char>>;

/// What `std::path::Path::file_name` gives for the path written as `s`, as text.
pub uninterp spec fn spec_path_file_name(s: Seq<char>) -> Option<Seq<char>>;

/// `Path::parent` (std) on the path written as `s`: the path without its final
/// component, or `None` for a root or an empty path. The lexical rules of
/// `std::path` decide it; they are named here, not written out.
#[verifier::external_body]
fn path_parent(s: &str) -> (r: Option<String>)
    ensures
        r matches Some(p) ==> spec_path_parent(s@) == Some(p@),
        r is None ==> spec_path_parent(s@) is None,
{
    match Path::new(s).parent() {
        Some(parent) => parent.to_str().map(String::from),
        None => None,
    }
}

/// `Path::file_name` (std) on the path written as `s`: its final component,
/// or `None` when the path ends in `..` or has none. Named, not written out.
#[verifier::external_body]
fn path_file_name(s: &str) -> (r: Option<String>)
    ensures
        r matches Some(p) ==> spec_path_file_name(s@) == Some(p@),
        r is None ==> spec_path_file_name(s@) is None,
{
    match Path::new(s).file_name() {
        Some(name) => name.to_str().map(String::from),
        None => None,
    }
}

/// The name of the directory that holds `file_path`: the final component of its parent.
pub open spec fn last_directory_name(file_path: Seq<char>) -> Option<Seq<char>> {
    match spec_path_parent(file_path) {
        Some(parent) => spec_path_file_name(parent),
        None => None,
    }
}

/// The name of the directory that holds the file at `file_path`
/// (for `.../<id>/scene.pkg` it is `<id>`).
pub fn extract_last_directory_name(file_path: &str) -> (r: Option<String>)
    ensures
        r matches Some(name) ==> last_directory_name(file_path@) == Some(name@),
        r is None ==> last_directory_name(file_path@) is None,
{
    match path_parent(file_path) {
        Some(parent) => path_file_name(parent.as_str()),
        None => None,
    }
}

} // verus!
