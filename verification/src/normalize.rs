//! The canonical form by which an argument is compared with the protected
//! paths. A symbolic link is placed by its own location: only the directory
//! that holds it is resolved.

use vstd::prelude::*;
use crate::pathops::{
    canonicalize, file_name, file_name_of, is_absolute, is_symlink, join, joined, opt_text, parent,
    parent_of,
};

verus! {

/// Tells whether the path is relative: it does not start at the root.
pub fn is_relative(path: &str) -> (r: bool)
    ensures
        r == !is_absolute(path@),
{
    if path.unicode_len() == 0 {
        true
    } else {
        path.get_char(0) != '/'
    }
}

/// The path whose parent directory is resolved: a relative path is first
/// adjoined to `.`, so that it has a parent.
pub open spec fn explicit_path(path: Seq<char>) -> Seq<char> {
    if is_absolute(path) {
        path
    } else {
        joined("."@, path)
    }
}

/// The directory that holds `path`, as the path names it: what is resolved in
/// place of the path itself. `None` where the path has no parent.
pub fn directory_to_resolve(path: &str) -> (r: Option<String>)
    ensures
        opt_text(r) == parent_of(explicit_path(path@)),
{
    if is_relative(path) {
        parent(join(".", path).as_str())
    } else {
        parent(path)
    }
}

/// Where `path` lies once the directory that holds it is known as `dir`: under
/// `dir` by its own final component; without one (the path ends in `..`), the
/// directory above `dir`, and the root where there is none.
pub open spec fn link_location(path: Seq<char>, dir: Seq<char>) -> Seq<char> {
    match file_name_of(path) {
        Some(name) => joined(dir, name),
        None => match parent_of(dir) {
            Some(above) => above,
            None => "/"@,
        },
    }
}

/// Places `path` under the resolved directory `dir`. Under an absolute
/// directory the place is absolute.
pub fn place_link(path: &str, dir: &str) -> (r: String)
    ensures
        r@ == link_location(path@, dir@),
        is_absolute(dir@) ==> is_absolute(r@),
{
    match file_name(path) {
        Some(name) => join(dir, name.as_str()),
        None => match parent(dir) {
            Some(above) => above,
            None => {
                proof {
                    reveal_strlit("/");
                }
                String::from_str("/")
            },
        },
    }
}

/// The canonical location of `path` itself, its last component not followed.
///
/// Only the parent directory is resolved against the file system. A path
/// without a parent is placed under the root, whatever is on disk. Otherwise
/// the result is `None` where the parent cannot be resolved, and else the
/// path's location under some absolute directory. A location is always
/// absolute.
pub fn symlink_canonicalize(path: &str) -> (r: Option<String>)
    ensures
        parent_of(explicit_path(path@)) is None ==> opt_text(r) == Some(
            link_location(path@, "/"@),
        ),
        parent_of(explicit_path(path@)) is Some ==> r is None || exists|d: Seq<char>|
            is_absolute(d) && opt_text(r) == Some(#[trigger] link_location(path@, d)),
        r matches Some(p) ==> is_absolute(p@),
{
    match directory_to_resolve(path) {
        Some(dir) => match canonicalize(dir.as_str()) {
            Ok(resolved) => Some(place_link(path, resolved.as_str())),
            Err(_) => None,
        },
        None => {
            proof {
                reveal_strlit("/");
            }
            Some(place_link(path, "/"))
        },
    }
}

/// The argument's canonical form where one was found, the argument itself
/// where none was.
pub fn or_unchanged(arg: &str, resolved: Option<String>) -> (r: String)
    ensures
        r@ == (match resolved {
            Some(p) => p@,
            None => arg@,
        }),
{
    match resolved {
        Some(p) => p,
        None => String::from_str(arg),
    }
}

/// The canonical form of `arg`, given what the file system answered: whether
/// the argument is a symbolic link, its own location with the last component
/// not followed, and its canonical path with every link followed. A link is
/// judged by its own location and never by its target; anything else by its
/// canonical path; and what could not be resolved stays as it was given.
pub open spec fn normal_form_text(
    arg: Seq<char>,
    is_link: bool,
    own_location: Option<Seq<char>>,
    canonical: Option<Seq<char>>,
) -> Seq<char> {
    match (if is_link {
        own_location
    } else {
        canonical
    }) {
        Some(p) => p,
        None => arg,
    }
}

/// Chooses the canonical form of `arg` from the file system's answers.
pub fn normal_form(
    arg: &str,
    is_link: bool,
    own_location: Option<String>,
    canonical: Option<String>,
) -> (r: String)
    ensures
        r@ == normal_form_text(arg@, is_link, opt_text(own_location), opt_text(canonical)),
{
    if is_link {
        or_unchanged(arg, own_location)
    } else {
        or_unchanged(arg, canonical)
    }
}

/// The forms that `normalize_path` can give `arg`: the argument unchanged, or
/// an absolute path.
pub open spec fn is_normal_form_of(r: Seq<char>, arg: Seq<char>) -> bool {
    r == arg || is_absolute(r)
}

/// Brings `arg` into the form by which it is compared. Never fails: an
/// argument that names nothing on disk, or that cannot be resolved, comes back
/// unchanged. The file system is asked whether the argument is a symbolic
/// link, for its own location and for its canonical path, and `normal_form`
/// chooses among the answers.
pub fn normalize_path(arg: &str) -> (r: String)
    ensures
        is_normal_form_of(r@, arg@),
{
    let is_link = is_symlink(arg);
    let own_location = symlink_canonicalize(arg);
    let canonical = match canonicalize(arg) {
        Ok(p) => Some(p),
        Err(_) => None,
    };
    normal_form(arg, is_link, own_location, canonical)
}

} // verus!
