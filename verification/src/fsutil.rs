//! Path utilities: the ancestor that two paths share, and whether a path
//! exists.

use crate::error::IoFailure;
use std::path::Path;
use vstd::prelude::*;

verus! {

/// The parent of `path` as `std::path::Path::parent` gives it: the path
/// without its final component, or `None` where the path ends in a root or
/// prefix, or is empty.
pub uninterp spec fn path_parent(path: Seq<char>) -> Option<Seq<char>>;

/// Whether `base` is a prefix of `path`, whole components only, as
/// `std::path::Path::starts_with` decides it.
pub uninterp spec fn path_starts_with(path: Seq<char>, base: Seq<char>) -> bool;

/// What is left of `path` behind `base`, as `std::path::Path::strip_prefix`
/// gives it: `None` where `path` does not start with `base`.
pub uninterp spec fn path_strip_prefix(path: Seq<char>, base: Seq<char>) -> Option<Seq<char>>;

/// Calls `std::path::Path::parent`.
///
/// Trusted: the result is the named parent, and, being the path without its
/// final component, it is shorter than the path.
#[verifier::external_body]
pub(crate) fn parent<'a>(path: &'a str) -> (r: Option<&'a str>)
    ensures
        match r {
            Some(p) => path_parent(path@) == Some(p@) && p@.len() < path@.len(),
            None => path_parent(path@) is None,
        },
{
    match Path::new(path).parent() {
        Some(p) => p.to_str(),
        None => None,
    }
}

/// Calls `std::path::Path::starts_with`.
///
/// Trusted: the result is the named answer.
#[verifier::external_body]
pub(crate) fn starts_with(path: &str, base: &str) -> (r: bool)
    ensures
        r == path_starts_with(path@, base@),
{
    Path::new(path).starts_with(base)
}

/// Calls `std::path::Path::strip_prefix`.
///
/// Trusted: the result is the named remainder.
#[verifier::external_body]
pub(crate) fn strip_prefix<'a>(path: &'a str, base: &str) -> (r: Option<&'a str>)
    ensures
        match r {
            Some(rest) => path_strip_prefix(path@, base@) == Some(rest@),
            None => path_strip_prefix(path@, base@) is None,
        },
{
    match Path::new(path).strip_prefix(base) {
        Ok(rest) => rest.to_str(),
        Err(_) => None,
    }
}

/// The deepest of `path` and its ancestors that is not empty and that
/// `other` starts with; `None` where there is none.
pub open spec fn shared_ancestor(path: Seq<char>, other: Seq<char>) -> Option<Seq<char>>
    decreases path.len(),
{
    if path.len() > 0 && path_starts_with(other, path) {
        Some(path)
    } else {
        match path_parent(path) {
            Some(up) => if up.len() < path.len() {
                shared_ancestor(up, other)
            } else {
                None
            },
            None => None,
        }
    }
}

/// Whatever `shared_ancestor` finds is not empty, and `other` starts with it.
pub proof fn lemma_shared_ancestor_is_shared(path: Seq<char>, other: Seq<char>)
    ensures
        shared_ancestor(path, other) matches Some(found) ==> found.len() > 0 && path_starts_with(
            other,
            found,
        ),
    decreases path.len(),
{
    if !(path.len() > 0 && path_starts_with(other, path)) {
        if let Some(up) = path_parent(path) {
            if up.len() < path.len() {
                lemma_shared_ancestor_is_shared(up, other);
            }
        }
    }
}

/// Returns the common ancestor of two paths: `path_1` itself or the nearest
/// of its ancestors that `path_2` starts with. Relative paths that share no
/// leading component have none.
pub fn common_ancestor<'a>(path_1: &'a str, path_2: &str) -> (r: Option<&'a str>)
    ensures
        match r {
            Some(found) => shared_ancestor(path_1@, path_2@) == Some(found@),
            None => shared_ancestor(path_1@, path_2@) is None,
        },
{
    let mut current: &'a str = path_1;
    loop
        invariant
            shared_ancestor(current@, path_2@) == shared_ancestor(path_1@, path_2@),
        decreases current@.len(),
    {
        if !current.is_empty() && starts_with(path_2, current) {
            return Some(current);
        }
        match parent(current) {
            Some(up) => {
                current = up;
            },
            None => {
                return None;
            },
        }
    }
}

/// Whether there is an entry at a path, given what looking the path up came
/// to: there is one where the lookup succeeded, none where it found nothing,
/// and any other failure stands.
pub open spec fn exists_after(lookup: Result<(), IoFailure>) -> Result<bool, IoFailure> {
    match lookup {
        Ok(_) => Ok(true),
        Err(failure) => if failure.kind is NotFound {
            Ok(false)
        } else {
            Err(failure)
        },
    }
}

/// Tests whether a path exists, from the outcome of looking up its metadata.
///
/// The lookup is the caller's; made without following a final symbolic
/// link, a dangling link counts as existing.
pub fn path_exists(lookup: Result<(), IoFailure>) -> (exists: Result<bool, IoFailure>)
    ensures
        exists == exists_after(lookup),
{
    match lookup {
        Ok(_) => Ok(true),
        Err(failure) => if failure.is_not_found() {
            Ok(false)
        } else {
            Err(failure)
        },
    }
}

} // verus!
