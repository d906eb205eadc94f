//! Paths as texts, read by the platform's own rules.

use vstd::prelude::*;

verus! {

/// The path without its final component, as `std::path::Path::parent` gives
/// it on the platform the crate is built for; `None` where the path ends in a
/// root or a prefix, or is empty.
pub uninterp spec fn path_parent(path: Seq<char>) -> Option<Seq<char>>;

/// Whether the components of `tail` are the last components of `path`, as
/// `std::path::Path::ends_with` decides it on the platform the crate is built
/// for.
pub uninterp spec fn path_ends_with(path: Seq<char>, tail: Seq<char>) -> bool;

/// `path` adjoined to `base`, as `camino::Utf8Path::join` gives it on the
/// platform the crate is built for.
pub uninterp spec fn path_join(base: Seq<char>, path: Seq<char>) -> Seq<char>;

/// Calls `std::path::Path::parent`.
///
/// The result depends on the text alone; the contract gives it the name
/// [`path_parent`] and claims nothing else of it.
#[verifier::external_body]
pub(crate) fn parent<'a>(path: &'a str) -> (dir: Option<&'a str>)
    ensures
        dir.deep_view() == path_parent(path@),
{
    std::path::Path::new(path).parent().and_then(|dir| dir.to_str())
}

/// Calls `std::path::Path::ends_with`.
///
/// The result depends on the two texts alone; the contract gives it the name
/// [`path_ends_with`] and claims nothing else of it.
#[verifier::external_body]
pub(crate) fn ends_with(path: &str, tail: &str) -> (found: bool)
    ensures
        found == path_ends_with(path@, tail@),
{
    std::path::Path::new(path).ends_with(tail)
}

/// Calls `camino::Utf8Path::join`, which `cargo_metadata` hands on.
///
/// The result depends on the two texts alone; the contract gives it the name
/// [`path_join`] and claims nothing else of it.
#[verifier::external_body]
pub(crate) fn join(base: &str, path: &str) -> (joined: String)
    ensures
        joined@ == path_join(base@, path@),
{
    cargo_metadata::camino::Utf8Path::new(base).join(path).into_string()
}

/// Whether the directory that holds the executable is named `deps`: the sign
/// of a test binary.
pub open spec fn in_deps_directory(path: Seq<char>) -> bool {
    match path_parent(path) {
        Some(dir) => path_ends_with(dir, "deps"@),
        None => false,
    }
}

/// Whether the executable at `uefi_path` is to be run as a test.
pub fn is_test(uefi_path: &str) -> (test: bool)
    ensures
        test == in_deps_directory(uefi_path@),
{
    match parent(uefi_path) {
        None => false,
        Some(dir) => ends_with(dir, "deps"),
    }
}

} // verus!
