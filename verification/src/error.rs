//! The ways in which a mesh can be refused.

use vstd::prelude::*;

verus! {

/// Why a mesh, or a request on it, was refused.
#[derive(Clone, Copy, Debug, PartialEq, Eq, Structural)]
pub enum MeshError {
    /// A `v`, `vn`, `vt` or `f` line lacks a token or holds one that is not a number.
    MalformedLine,
    /// A face corner names an entry that the geometry store does not hold.
    DanglingReference,
    /// A face has fewer than three or more than four corners.
    UnsupportedArity,
    /// An indexed buffer would need more distinct vertices than 16-bit indices can tell apart.
    CapacityExceeded,
}

/// A refused line of mesh text.
#[derive(Debug, PartialEq, Eq)]
pub struct ParseError {
    /// What is wrong with the line.
    pub kind: MeshError,
    /// The one-based number of the line.
    pub line: usize,
    /// The bytes of the line, without its line feed.
    pub content: Vec<u8>,
}

} // verus!
