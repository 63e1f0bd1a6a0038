//! Checking an inclusion claim against a published root.

use vstd::prelude::*;
use crate::error::MerkleError;
use crate::hash::{digest_eq, hash_pair, Digest, Hasher};
use crate::model::{check_claim, is_carried, path_len, recompute_root};

verus! {

/// Decides whether `leaf` is the leaf at `index` of a tree with
/// `total_leaves` leaves and root `root`, given the sibling `path`.
///
/// The result is exactly [`check_claim`]: an error for an index out of
/// range or a path that is too short, and otherwise the boolean answer. A
/// proof that does not lead to `root` is the answer `false`, not an error.
pub fn verify<H: Hasher>(
    root: &Digest,
    index: usize,
    leaf: &Digest,
    total_leaves: usize,
    path: &[Digest],
) -> (result: Result<bool, MerkleError>)
    ensures
        result == check_claim::<H>(*root, index as int, *leaf, total_leaves as int, path@),
{
    if index >= total_leaves {
        return Err(MerkleError::IndexOutOfRange);
    }
    let mut current: Digest = *leaf;
    let mut pos: usize = index;
    let mut width: usize = total_leaves;
    let mut used: usize = 0;
    assert(path@.skip(0) =~= path@);
    while width > 1
        invariant
            index < total_leaves,
            pos < width,
            used <= path@.len(),
            used + path_len(pos as int, width as int) == path_len(
                index as int,
                total_leaves as int,
            ),
            recompute_root::<H>(current, pos as int, width as int, path@.skip(used as int))
                == recompute_root::<H>(*leaf, index as int, total_leaves as int, path@),
        decreases width,
    {
        let carried: bool = width % 2 == 1 && pos == width - 1;
        assert(carried == is_carried(pos as int, width as int));
        if !carried {
            if used >= path.len() {
                return Err(MerkleError::MalformedProof);
            }
            let sibling = &path[used];
            assert(path@.skip(used as int)[0] == path@[used as int]);
            assert(path@.skip(used as int).drop_first() =~= path@.skip(used + 1));
            current = if pos % 2 == 0 {
                hash_pair::<H>(&current, sibling)
            } else {
                hash_pair::<H>(sibling, &current)
            };
            used += 1;
        }
        pos = pos / 2;
        width = width / 2 + width % 2;
    }
    if used != path.len() {
        return Ok(false);
    }
    Ok(digest_eq(&current, root))
}

} // verus!
