//! The ways in which a commitment or an inclusion check can fail.

use vstd::prelude::*;

verus! {

/// A failure of the caller's input, as opposed to a proof that simply does not
/// match the root (which is the ordinary answer `false`).
#[derive(Clone, Copy, Debug, PartialEq, Eq, Structural)]
pub enum MerkleError {
    /// The tree holds no leaf, so it has no root.
    EmptyTree,
    /// The leaf index is not below the number of leaves.
    IndexOutOfRange,
    /// The proof bytes are not a whole number of digests, or the path ends
    /// before the root level is reached.
    MalformedProof,
}

} // verus!
