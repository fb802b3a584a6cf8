//! What the library takes from the `glob` crate: whether a line is a pattern,
//! and the entries that a pattern yields one by one. Nothing in this file is
//! proved.

use vstd::prelude::*;
use crate::expand::Entry;

verus! {

/// The enumeration of a pattern's matches, as `glob` hands it out.
#[verifier::external_type_specification]
#[verifier::external_body]
pub struct ExPaths(glob::Paths);

/// The error with which `glob` turns down a line that is no pattern.
#[verifier::external_type_specification]
#[verifier::external_body]
pub struct ExPatternError(glob::PatternError);

/// The error that `glob` yields for an entry that it could not read. No
/// signature of the library holds it, but the items of `glob::Paths` do, and
/// Verus wants the types of a declared iterator's items declared too.
#[verifier::external_type_specification]
#[verifier::external_body]
pub struct ExGlobError(glob::GlobError);

/// The path of a match, as `glob` yields it. Declared for the same reason:
/// the library itself holds every path as a `String`.
#[verifier::external_type_specification]
#[verifier::external_body]
pub struct ExPathBuf(std::path::PathBuf);

/// Whether `glob::glob` takes the text as a pattern. It decides this from the
/// text alone, before it looks at the file system.
pub uninterp spec fn glob_accepts(pattern: Seq<char>) -> bool;

/// Calls `glob::glob`, which compiles the pattern and prepares the enumeration
/// of its matches. It fails exactly on the texts that are no pattern.
#[verifier::external_body]
pub(crate) fn open_pattern(pattern: &str) -> (r: Result<glob::Paths, glob::PatternError>)
    ensures
        r is Ok == glob_accepts(pattern@),
{
    glob::glob(pattern)
}

/// Calls `next` on the enumeration: the next entry, or `None` at its end.
/// Which entries come depends on what is on disk, so nothing is known of them.
/// A match that is not valid Unicode is handed on with the replacement
/// character in place of the offending bytes.
#[verifier::external_body]
pub(crate) fn next_entry(paths: &mut glob::Paths) -> (r: Option<Entry>) {
    match paths.next() {
        Some(Ok(path)) => Some(Entry::Match(path.to_string_lossy().into_owned())),
        Some(Err(_)) => Some(Entry::Unreadable),
        None => None,
    }
}

} // verus!
