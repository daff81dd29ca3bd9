//! Paths, held as their string form, and the component-wise path operations of std.
use vstd::prelude::*;
use crate::text::{chars_of, starts_with_chars, seq_starts_with};

verus! {

/// The parent of a path as `std::path::Path::parent` computes it.
pub uninterp spec fn path_parent_of(path: Seq<char>) -> Option<Seq<char>>;

/// The final component of a path as `std::path::Path::file_name` computes it
/// (`None` when it has none, or when it is not valid UTF-8).
pub uninterp spec fn path_file_name_of(path: Seq<char>) -> Option<Seq<char>>;

/// Whether `base` is a prefix of `path`, whole components only
/// (`std::path::Path::starts_with`).
pub uninterp spec fn path_starts_with_base(path: Seq<char>, base: Seq<char>) -> bool;

/// Whether two paths have the same components (`==` on `std::path::Path`).
pub uninterp spec fn path_components_eq(a: Seq<char>, b: Seq<char>) -> bool;

/// `std::path::Path::parent`: the path without its final component, or `None`
/// when the path ends in a root or is empty. The contract names the result and
/// does not spell out how components are split.
#[verifier::external_body]
pub(crate) fn path_parent(path: &str) -> (r: Option<String>)
    ensures
        match r {
            Some(p) => path_parent_of(path@) == Some(p@),
            None => path_parent_of(path@) is None,
        },
{
    std::path::Path::new(path).parent().map(|p| p.to_string_lossy().into_owned())
}

/// `std::path::Path::file_name`, kept only when it is valid UTF-8 (`to_str`).
/// The contract names the result and does not spell out how components are split.
#[verifier::external_body]
pub(crate) fn path_file_name(path: &str) -> (r: Option<String>)
    ensures
        match r {
            Some(n) => path_file_name_of(path@) == Some(n@),
            None => path_file_name_of(path@) is None,
        },
{
    std::path::Path::new(path).file_name().and_then(|n| n.to_str()).map(|n| n.to_string())
}

/// `std::path::Path::starts_with`: whether `base` is a whole-component prefix of
/// `path`. The contract names the result.
#[verifier::external_body]
pub(crate) fn path_starts_with(path: &str, base: &str) -> (r: bool)
    ensures
        r == path_starts_with_base(path@, base@),
{
    std::path::Path::new(path).starts_with(base)
}

/// `==` on `std::path::Path`: the two paths have the same components. The
/// contract names the result.
#[verifier::external_body]
pub(crate) fn path_eq(a: &str, b: &str) -> (r: bool)
    ensures
        r == path_components_eq(a@, b@),
{
    std::path::Path::new(a) == std::path::Path::new(b)
}

/// The prefix that marks bundler-generated (virtual) modules.
pub open spec fn virtual_prefix() -> Seq<char> {
    seq!['v', 'i', 'r', 't', 'u', 'a', 'l', ':']
}

/// A path is virtual when it begins with `virtual:`.
pub open spec fn is_virtual(path: Seq<char>) -> bool {
    seq_starts_with(path, virtual_prefix())
}

/// Checks whether a path names a virtual (bundler-generated) module.
pub fn is_virtual_path(path: &str) -> (r: bool)
    ensures
        r == is_virtual(path@),
{
    let p = chars_of(path);
    let prefix = vec!['v', 'i', 'r', 't', 'u', 'a', 'l', ':'];
    assert(prefix@ =~= virtual_prefix());
    starts_with_chars(&p, &prefix)
}

/// On Unix a path is absolute when it begins at the root, `/`.
pub open spec fn is_absolute_path(path: Seq<char>) -> bool {
    path.len() > 0 && path[0] == '/'
}

/// Whether a path is absolute (Unix: it begins with `/`).
pub fn is_absolute(path: &str) -> (r: bool)
    ensures
        r == is_absolute_path(path@),
{
    let p = chars_of(path);
    p.len() > 0 && p[0] == '/'
}

} // verus!
