//! File system paths.
use vstd::prelude::*;

verus! {

/// What `camino::Utf8Path::join` makes of a path and another that is adjoined to it.
pub uninterp spec fn joined_path(path: Seq<char>, other: Seq<char>) -> Seq<char>;

/// What `camino::Utf8Path::strip_prefix` leaves of a path without a leading path; none where
/// the other does not lead.
pub uninterp spec fn stripped_path(path: Seq<char>, base: Seq<char>) -> Option<Seq<char>>;

/// Calls `camino::Utf8Path::join`.  Claimed is that the result depends on the two paths alone,
/// as it does on the Unix-like systems that this is for.
#[verifier::external_body]
pub(crate) fn path_join(path: &str, other: &str) -> (r: String)
    ensures
        r@ == joined_path(path@, other@),
{
    camino::Utf8Path::new(path).join(other).into_string()
}

/// Calls `camino::Utf8Path::strip_prefix`.  Claimed is that the result depends on the two
/// paths alone, as it does on the Unix-like systems that this is for.
#[verifier::external_body]
pub(crate) fn path_strip_prefix(path: &str, base: &str) -> (r: Option<String>)
    ensures
        match r {
            Some(rest) => stripped_path(path@, base@) == Some(rest@),
            None => stripped_path(path@, base@) is None,
        },
{
    match camino::Utf8Path::new(path).strip_prefix(base) {
        Ok(rest) => Some(rest.to_string()),
        Err(_) => None,
    }
}

} // verus!
