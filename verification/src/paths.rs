//! Paths on disk, written relative to the package's root.

use vstd::prelude::*;
use crate::model::opt_text;

verus! {

/// The path that leads from the directory `base` to `path`, both split into
/// components as `std::path::Path` splits them; `None` where there is
/// none.
pub uninterp spec fn relative_to(path: Seq<char>, base: Seq<char>) -> Option<Seq<char>>;

/// `pathdiff::diff_paths` compares the components of the two paths and
/// reads neither the disk nor the environment, so what it returns depends
/// on the two texts alone. It gives no path where `base` is absolute and
/// `path` is not, or where `base` climbs with `..` past what the two share.
/// This contract only names its result.
#[verifier::external_body]
pub(crate) fn rel_path(base: &str, path: &str) -> (r: Option<String>)
    ensures
        opt_text(r) == relative_to(path@, base@),
{
    match pathdiff::diff_paths(path, base) {
        Some(p) => Some(p.to_string_lossy().into_owned()),
        None => None,
    }
}

} // verus!
