use vstd::prelude::*;

verus! {

/// The error kinds of the query layer.
///
/// Every operation either fully succeeds or fails with exactly one of
/// these kinds; no partial results are produced.
#[derive(Clone, Copy, Debug, PartialEq, Eq, Structural)]
pub enum Error {
    /// The backing storage cannot be located or its framing is invalid.
    Open,
    /// Path resolution: the final component does not exist in its
    /// parent's children.
    NotFound,
    /// Path resolution: the path traverses through a non-directory.
    NotADirectory,
    /// An entry-table index is out of range.
    Index,
    /// A file-only operation was invoked on a non-file entry.
    NotAFile,
    /// A link-only operation was invoked on a non-link entry.
    NotALink,
    /// A directory-only operation was invoked on a non-directory entry.
    NotADir,
    /// A content read failed or was short.
    Read,
}

} // verus!
