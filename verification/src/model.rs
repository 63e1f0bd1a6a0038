//! The mathematical model: what a tree, a sibling path and a check are.
//!
//! Everything here is a specification function over sequences of digests. The
//! executable code in the other modules is proved to compute these.

use vstd::prelude::*;
use crate::error::MerkleError;
use crate::hash::{node_digest, Digest, Hasher};

verus! {

/// The layer above `layer`: adjacent entries are hashed in pairs from the
/// left; if the count is odd, the last entry moves up unchanged.
pub open spec fn parent_layer<H: Hasher>(layer: Seq<Digest>) -> Seq<Digest> {
    Seq::new(
        ((layer.len() + 1) / 2) as nat,
        |k: int|
            if 2 * k + 1 < layer.len() {
                node_digest::<H>(layer[2 * k], layer[2 * k + 1])
            } else {
                layer[2 * k]
            },
    )
}

/// All layers of the tree over `leaves`, leaves first. The last layer has a
/// single entry, the root (or none, if there are no leaves).
pub open spec fn tree_layers<H: Hasher>(leaves: Seq<Digest>) -> Seq<Seq<Digest>>
    decreases leaves.len(),
{
    if leaves.len() <= 1 {
        seq![leaves]
    } else {
        seq![leaves] + tree_layers::<H>(parent_layer::<H>(leaves))
    }
}

/// The root of the tree over `leaves`. Meaningful for at least one leaf; a
/// single leaf is its own root.
pub open spec fn merkle_root<H: Hasher>(leaves: Seq<Digest>) -> Digest
    recommends
        leaves.len() > 0,
    decreases leaves.len(),
{
    if leaves.len() <= 1 {
        leaves[0]
    } else {
        merkle_root::<H>(parent_layer::<H>(leaves))
    }
}

/// What a tree over `leaves` commits to: its root, or an error if there is
/// no leaf.
pub open spec fn commitment<H: Hasher>(leaves: Seq<Digest>) -> Result<Digest, MerkleError> {
    if leaves.len() == 0 {
        Err(MerkleError::EmptyTree)
    } else {
        Ok(merkle_root::<H>(leaves))
    }
}

/// Number of pairing steps between `count` leaves and the root.
pub open spec fn tree_height(count: nat) -> nat
    decreases count,
{
    if count <= 1 {
        0
    } else {
        1 + tree_height(((count + 1) / 2) as nat)
    }
}

/// Whether the node at `pos` in a layer of `width` entries has no partner:
/// it is the last entry of a layer of odd width.
pub open spec fn is_carried(pos: int, width: int) -> bool {
    width % 2 == 1 && pos == width - 1
}

/// The position of the partner of the node at `pos`.
pub open spec fn sibling_index(pos: int) -> int {
    if pos % 2 == 0 {
        pos + 1
    } else {
        pos - 1
    }
}

/// The inclusion proof for the leaf at `index`: for each layer below the
/// root, the partner of the node on the way up, where it has one. A carried
/// node contributes nothing at that layer.
pub open spec fn sibling_path<H: Hasher>(leaves: Seq<Digest>, index: int) -> Seq<Digest>
    decreases leaves.len(),
{
    if leaves.len() <= 1 {
        Seq::empty()
    } else {
        let above = sibling_path::<H>(parent_layer::<H>(leaves), index / 2);
        if is_carried(index, leaves.len() as int) {
            above
        } else {
            seq![leaves[sibling_index(index)]] + above
        }
    }
}

/// Number of siblings in the proof for position `index` among `total` leaves.
pub open spec fn path_len(index: int, total: int) -> nat
    decreases total,
{
    if total <= 1 {
        0
    } else {
        let above = path_len(index / 2, (total + 1) / 2);
        if is_carried(index, total) {
            above
        } else {
            above + 1
        }
    }
}

/// The root that a claimed leaf and path lead to: at each layer the node is
/// hashed with the next sibling, on the left if its position is even and on
/// the right if it is odd; a carried node moves up unchanged and uses no
/// sibling. Siblings beyond the root level are not looked at.
pub open spec fn recompute_root<H: Hasher>(
    leaf: Digest,
    index: int,
    total: int,
    path: Seq<Digest>,
) -> Digest
    decreases total,
{
    if total <= 1 {
        leaf
    } else if is_carried(index, total) {
        recompute_root::<H>(leaf, index / 2, (total + 1) / 2, path)
    } else {
        let node = if index % 2 == 0 {
            node_digest::<H>(leaf, path[0])
        } else {
            node_digest::<H>(path[0], leaf)
        };
        recompute_root::<H>(node, index / 2, (total + 1) / 2, path.drop_first())
    }
}

/// The outcome of checking an inclusion claim.
///
/// An index outside `[0, total)` is an error. A path that ends before the
/// root level is reached cannot be completed and is an error too. A path
/// with siblings left over cannot belong to this tree shape, so the answer
/// is `false`. Otherwise the answer is whether the recomputed root is `root`.
pub open spec fn check_claim<H: Hasher>(
    root: Digest,
    index: int,
    leaf: Digest,
    total: int,
    path: Seq<Digest>,
) -> Result<bool, MerkleError> {
    if !(0 <= index < total) {
        Err(MerkleError::IndexOutOfRange)
    } else if path.len() < path_len(index, total) {
        Err(MerkleError::MalformedProof)
    } else {
        Ok(
            path.len() == path_len(index, total) && recompute_root::<H>(leaf, index, total, path)
                == root,
        )
    }
}

} // verus!
