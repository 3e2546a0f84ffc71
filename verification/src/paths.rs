//! Paths as text, taken apart and put together by the path rules of the
//! platform that the library is built for.
//!
//! The library does not write those rules out. Each operation is made by
//! the `camino` crate, and its result has a name here, so that contracts
//! can say which operation a text came from. Within one build a result
//! depends on the texts handed in and on nothing else: no file system is
//! looked at.

use vstd::prelude::*;
use camino::Utf8Path;

verus! {

/// The path `path` without its last component, as `Utf8Path::parent` gives
/// it: `None` where the path ends in a root or has no component at all.
pub uninterp spec fn path_parent(path: Seq<char>) -> Option<Seq<char>>;

/// The path `path` adjoined to `base`, as `Utf8Path::join` gives it.
pub uninterp spec fn path_join(base: Seq<char>, path: Seq<char>) -> Seq<char>;

/// What is left of `path` behind `base`, as `Utf8Path::strip_prefix` gives
/// it: `None` where the components of `base` do not begin `path`.
pub uninterp spec fn path_strip_prefix(path: Seq<char>, base: Seq<char>) -> Option<Seq<char>>;

/// Whether `path` is absolute, as `Utf8Path::is_absolute` tells it.
pub uninterp spec fn path_is_absolute(path: Seq<char>) -> bool;

/// Calls `camino::Utf8Path::parent` on the path written `path` and hands
/// back the text of what it returns. Trusted: the result is the one that
/// `path_parent` names.
#[verifier::external_body]
pub(crate) fn parent(path: &str) -> (parent: Option<String>)
    ensures
        parent.deep_view() == path_parent(path@),
{
    match Utf8Path::new(path).parent() {
        Some(parent) => Some(parent.as_str().to_owned()),
        None => None,
    }
}

/// Calls `camino::Utf8Path::join` on the path written `base` with `path`
/// and hands back the text of what it returns. Trusted: the result is the
/// one that `path_join` names.
#[verifier::external_body]
pub(crate) fn join(base: &str, path: &str) -> (joined: String)
    ensures
        joined@ == path_join(base@, path@),
{
    Utf8Path::new(base).join(path).into_string()
}

/// Calls `camino::Utf8Path::strip_prefix` on the path written `path` with
/// `base` and hands back the text of what it returns, `None` for its error.
/// Trusted: the result is the one that `path_strip_prefix` names.
#[verifier::external_body]
pub(crate) fn strip_prefix(path: &str, base: &str) -> (rest: Option<String>)
    ensures
        rest.deep_view() == path_strip_prefix(path@, base@),
{
    match Utf8Path::new(path).strip_prefix(base) {
        Ok(rest) => Some(rest.as_str().to_owned()),
        Err(_) => None,
    }
}

/// Calls `camino::Utf8Path::is_absolute` on the path written `path`.
/// Trusted: the result is the one that `path_is_absolute` names.
#[verifier::external_body]
pub(crate) fn is_absolute(path: &str) -> (absolute: bool)
    ensures
        absolute == path_is_absolute(path@),
{
    Utf8Path::new(path).is_absolute()
}

} // verus!
