//! File paths, held as text and read by `std::path`.
//!
//! A path is a `String`. What its parts are is left to `std::path::Path`,
//! which reads a path by the conventions of the platform the library is built
//! for; the functions below only give names to its answers.

use vstd::prelude::*;

verus! {

/// What `Path::extension` returns for the path written `path`.
pub uninterp spec fn extension(path: Seq<char>) -> Option<Seq<char>>;

/// What `Path::file_stem` returns for the path written `path`.
pub uninterp spec fn file_stem(path: Seq<char>) -> Option<Seq<char>>;

/// What `Path::starts_with` returns for the path written `path` and the base
/// written `base`.
pub uninterp spec fn starts_with(path: Seq<char>, base: Seq<char>) -> bool;

/// The view of an optional text.
pub open spec fn text_of(t: Option<String>) -> Option<Seq<char>> {
    match t {
        Some(s) => Some(s@),
        None => None,
    }
}

/// `Path::extension`: the part of the file name after its last dot, if the
/// path has a file name with a dot that is not its first character. Nothing
/// more is claimed than that the answer depends on the path alone.
#[verifier::external_body]
pub(crate) fn extension_of(path: &str) -> (ext: Option<String>)
    ensures
        text_of(ext) == extension(path@),
{
    std::path::Path::new(path).extension().map(|e| e.to_string_lossy().into_owned())
}

/// `Path::file_stem`: the file name without its extension, if the path has a
/// file name. Nothing more is claimed than that the answer depends on the
/// path alone.
#[verifier::external_body]
pub(crate) fn file_stem_of(path: &str) -> (stem: Option<String>)
    ensures
        text_of(stem) == file_stem(path@),
{
    std::path::Path::new(path).file_stem().map(|s| s.to_string_lossy().into_owned())
}

/// `Path::starts_with`: whether `base` is a prefix of `path`, taken component
/// by component. Nothing more is claimed than that the answer depends on the
/// two paths alone.
#[verifier::external_body]
pub(crate) fn is_under(path: &str, base: &str) -> (under: bool)
    ensures
        under == starts_with(path@, base@),
{
    std::path::Path::new(path).starts_with(base)
}

} // verus!
