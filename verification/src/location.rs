//! Paths of the file system.

use std::path::PathBuf;
use vstd::prelude::*;

verus! {

/// The path that `PathBuf::from` makes of a text.
pub uninterp spec fn path_named(text: Seq<char>) -> PathBuf;

/// The path that `Path::join` makes of a path and one that is relative to it.
pub uninterp spec fn joined(base: PathBuf, relative: PathBuf) -> PathBuf;

/// `PathBuf::from`: the path of a text. It depends on the text alone.
#[verifier::external_body]
pub(crate) fn to_path(text: &str) -> (r: PathBuf)
    ensures
        r == path_named(text@),
{
    PathBuf::from(text)
}

/// `Path::join`: a path below another. It depends on the two paths alone.
#[verifier::external_body]
pub(crate) fn join(base: &PathBuf, relative: &PathBuf) -> (r: PathBuf)
    ensures
        r == joined(*base, *relative),
{
    base.join(relative)
}

} // verus!
