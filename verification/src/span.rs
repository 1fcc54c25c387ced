//! Source locations attached to every node of the program tree and to
//! diagnostics.

use vstd::prelude::*;

verus! {

/// A position in the source text: 1-based line and column.
#[derive(Debug, Clone, Copy, PartialEq, Eq, Structural)]
pub struct FileLoc {
    pub line: usize,
    pub col: usize,
}

/// The region of source text a node was parsed from, from `lo` (inclusive)
/// to `hi` (exclusive).
#[derive(Debug, Clone, Copy, PartialEq, Eq, Structural)]
pub struct Span {
    pub lo: FileLoc,
    pub hi: FileLoc,
}

} // verus!
