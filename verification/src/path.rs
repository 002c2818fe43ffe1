//! Repository-relative paths.

use vstd::prelude::*;

use crate::error::{GraphError, GraphFault};
use crate::text::to_chars;

verus! {

/// The whole segment that begins at `at` is `..`.
pub open spec fn parent_at(path: Seq<char>, at: int) -> bool {
    &&& 0 <= at
    &&& at + 2 <= path.len()
    &&& path[at] == '.'
    &&& path[at + 1] == '.'
    &&& at == 0 || path[at - 1] == '/'
    &&& at + 2 == path.len() || path[at + 2] == '/'
}

/// The first segment is `.`.
pub open spec fn begins_with_current(path: Seq<char>) -> bool {
    path.len() > 0 && path[0] == '.' && (path.len() == 1 || path[1] == '/')
}

/// A path that stays below the directory it is resolved in: it is not empty, has
/// no root, no drive or backslash, no leading `.` and no `..` segment.
pub open spec fn is_relative_path(path: Seq<char>) -> bool {
    &&& path.len() > 0
    &&& !path.contains('\\')
    &&& !path.contains(':')
    &&& path[0] != '/'
    &&& !begins_with_current(path)
    &&& forall|at: int| !parent_at(path, at)
}

/// Whether a path is repository-relative without parent traversal.
pub fn is_relative(path: &str) -> (r: bool)
    ensures
        r == is_relative_path(path@),
{
    let chars = to_chars(path);
    let n: usize = chars.len();
    if n == 0 || chars[0] == '/' || (chars[0] == '.' && (n == 1 || chars[1] == '/')) {
        return false;
    }
    let mut i: usize = 0;
    while i < n
        invariant
            chars@ == path@,
            n == chars@.len(),
            i <= n,
            forall|j: int| 0 <= j < i ==> (#[trigger] chars@[j]) != '\\' && chars@[j] != ':',
            forall|at: int| at < i ==> !parent_at(path@, at),
        decreases n - i,
    {
        let c = chars[i];
        if c == '\\' || c == ':' {
            assert(path@.contains(c));
            return false;
        }
        if c == '.' && n - i >= 2 && chars[i + 1] == '.' && (i == 0 || chars[i - 1] == '/') && (n - i
            == 2 || chars[i + 2] == '/') {
            assert(parent_at(path@, i as int));
            return false;
        }
        i += 1;
    }
    true
}

/// Refuses a path that is not repository-relative without parent traversal.
pub fn validate_relative_path(path: &str) -> (r: Result<(), GraphError>)
    ensures
        match r {
            Ok(()) => is_relative_path(path@),
            Err(e) => !is_relative_path(path@) && e@ == GraphFault::UnsafePath(path@),
        },
{
    if is_relative(path) {
        Ok(())
    } else {
        Err(GraphError::UnsafePath(path.to_owned()))
    }
}

} // verus!
