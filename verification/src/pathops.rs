//! What the library takes from `std::path`: the lexical operations on a path's
//! text and the two queries that look at the file system. Nothing in this file
//! is proved; each contract repeats what the standard library documents for
//! Unix paths.

use vstd::prelude::*;

verus! {

/// The text of `Path::parent` for the path with text `path`: the path without
/// its final component, or `None` where it ends in the root or is empty.
pub uninterp spec fn parent_of(path: Seq<char>) -> Option<Seq<char>>;

/// The text of `Path::file_name` for the path with text `path`: its final
/// component, or `None` where the path ends in `..` or has no component.
pub uninterp spec fn file_name_of(path: Seq<char>) -> Option<Seq<char>>;

/// The text of `Path::join`: `path` adjoined to `base`.
pub uninterp spec fn joined(base: Seq<char>, path: Seq<char>) -> Seq<char>;

/// A Unix path is absolute exactly when it starts at the root.
pub open spec fn is_absolute(path: Seq<char>) -> bool {
    path.len() > 0 && path[0] == '/'
}

/// The text held by an optional string.
pub open spec fn opt_text(o: Option<String>) -> Option<Seq<char>> {
    match o {
        Some(s) => Some(s@),
        None => None,
    }
}

/// Calls `Path::parent`. The result is a function of the path's text alone,
/// named `parent_of`. Where an absolute path has a parent, that parent starts
/// at the root too.
#[verifier::external_body]
pub(crate) fn parent(path: &str) -> (r: Option<String>)
    ensures
        opt_text(r) == parent_of(path@),
        is_absolute(path@) ==> (r matches Some(d) ==> is_absolute(d@)),
{
    std::path::Path::new(path).parent().map(|d| d.to_string_lossy().into_owned())
}

/// Calls `Path::file_name`. The result is a function of the path's text alone,
/// named `file_name_of`.
#[verifier::external_body]
pub(crate) fn file_name(path: &str) -> (r: Option<String>)
    ensures
        opt_text(r) == file_name_of(path@),
{
    std::path::Path::new(path).file_name().map(|n| n.to_string_lossy().into_owned())
}

/// Calls `Path::join`. The result is a function of the two texts alone, named
/// `joined`. What is adjoined to an absolute base is absolute: either it takes
/// the base's place, being absolute itself, or it follows the base.
#[verifier::external_body]
pub(crate) fn join(base: &str, path: &str) -> (r: String)
    ensures
        r@ == joined(base@, path@),
        is_absolute(base@) ==> is_absolute(r@),
{
    std::path::Path::new(base).join(path).to_string_lossy().into_owned()
}

/// Calls `Path::canonicalize`, which asks the file system. It fails where the
/// path does not exist, and then gives the error's text; where it succeeds the
/// result is an absolute path. Which of the two happens, and what comes back,
/// depend on what is on disk. A result that is not valid Unicode is handed on
/// with the replacement character in place of the offending bytes.
#[verifier::external_body]
pub(crate) fn canonicalize(path: &str) -> (r: Result<String, String>)
    ensures
        r matches Ok(c) ==> is_absolute(c@),
{
    match std::path::Path::new(path).canonicalize() {
        Ok(p) => Ok(p.to_string_lossy().into_owned()),
        Err(e) => Err(e.to_string()),
    }
}

/// Calls `Path::is_symlink`, which asks the file system without following the
/// path's last component. Nothing is known of the answer.
#[verifier::external_body]
pub(crate) fn is_symlink(path: &str) -> bool {
    std::path::Path::new(path).is_symlink()
}

} // verus!
