//! Path operations the library needs, taken from std's `Path`. Paths are
//! held as `String`s; what `Path` computes on them is named, not restated.

use std::path::Path;
use vstd::prelude::*;

verus! {

/// The parent that `Path::parent` gives for a path's text.
pub uninterp spec fn parent_of(p: Seq<char>) -> Option<Seq<char>>;

/// The last component that `Path::file_name` gives for a path's text.
pub uninterp spec fn file_name_of(p: Seq<char>) -> Option<Seq<char>>;

/// Whether `Path::starts_with` holds: `base`'s components are a prefix of `p`'s.
pub uninterp spec fn path_starts_with(p: Seq<char>, base: Seq<char>) -> bool;

/// Relies on `std::path::Path::parent`: the parent directory of a path,
/// `None` for a root or an empty path; it depends on the text alone.
#[verifier::external_body]
pub(crate) fn path_parent(p: &String) -> (r: Option<String>)
    ensures
        match r {
            Some(q) => parent_of(p@) == Some(q@),
            None => parent_of(p@) is None,
        },
{
    Path::new(p).parent().map(|q| q.to_string_lossy().into_owned())
}

/// Relies on `std::path::Path::file_name`: the final component of a path,
/// `None` when it ends in `..`; it depends on the text alone.
#[verifier::external_body]
pub(crate) fn path_file_name(p: &String) -> (r: Option<String>)
    ensures
        match r {
            Some(q) => file_name_of(p@) == Some(q@),
            None => file_name_of(p@) is None,
        },
{
    Path::new(p).file_name().map(|q| q.to_string_lossy().into_owned())
}

/// Relies on `std::path::Path::starts_with`: component-wise prefix test; it
/// depends on the two texts alone.
#[verifier::external_body]
pub(crate) fn path_has_prefix(p: &String, base: &String) -> (r: bool)
    ensures
        r == path_starts_with(p@, base@),
{
    Path::new(p).starts_with(Path::new(base))
}

/// The extension that `Path::extension` gives for a path's text.
pub uninterp spec fn extension_of(p: Seq<char>) -> Option<Seq<char>>;

/// Relies on `std::path::Path::extension`: the part of the file name after
/// its last dot, `None` without one; it depends on the text alone.
#[verifier::external_body]
pub(crate) fn path_extension(p: &String) -> (r: Option<String>)
    ensures
        match r {
            Some(q) => extension_of(p@) == Some(q@),
            None => extension_of(p@) is None,
        },
{
    Path::new(p).extension().map(|q| q.to_string_lossy().into_owned())
}

} // verus!
