//! Preparing the inputs of an inclusion check from a set of leaves.

use vstd::prelude::*;
use vstd::bytes::{spec_u64_to_le_bytes, u64_to_le_bytes};
use crate::codec::{encode, encode_path};
use crate::driver::{check_output, committed_output};
use crate::error::MerkleError;
use crate::hash::{Digest, Hasher};
use crate::laws::{law_completeness, law_round_trip};
use crate::model::{merkle_root, sibling_path};
use crate::tree::MerkleTree;

verus! {

/// The five inputs of one inclusion check.
#[derive(Clone, Debug, PartialEq, Eq)]
pub struct CheckInput {
    pub root: Digest,
    pub leaf: Digest,
    pub proof: Vec<u8>,
    pub index: usize,
    pub total_leaves: usize,
}

/// The leaf that stands for position `i`: the digest of `i` written as
/// eight little-endian bytes.
pub open spec fn position_leaf<H: Hasher>(i: nat) -> Digest {
    H::digest(spec_u64_to_le_bytes(i as u64))
}

/// The leaves that stand for the positions below `count`.
pub open spec fn position_leaves<H: Hasher>(count: nat) -> Seq<Digest> {
    Seq::new(count, |i: int| position_leaf::<H>(i as nat))
}

/// Whether `input` is the honest claim for position `index` of the tree
/// over `leaves`: its root, that leaf, and the encoded proof for it.
pub open spec fn is_claim_for<H: Hasher>(
    input: CheckInput,
    leaves: Seq<Digest>,
    index: int,
) -> bool {
    &&& 0 <= index < leaves.len()
    &&& input.root == merkle_root::<H>(leaves)
    &&& input.leaf == leaves[index]
    &&& input.proof@ == encode_path(sibling_path::<H>(leaves, index))
    &&& input.index == index
    &&& input.total_leaves == leaves.len()
}

/// Draws a number below `bound` with `rand::Rng::gen_range` on the
/// thread-local generator. The call panics on an empty range, which
/// `requires` leaves out; the contract claims only that the number lies in
/// the range asked for.
#[verifier::external_body]
fn random_below(bound: usize) -> (value: usize)
    requires
        bound > 0,
    ensures
        value < bound,
{
    rand::Rng::gen_range(&mut rand::thread_rng(), 0..bound)
}

/// Computes the leaf that stands for position `i`.
pub fn make_position_leaf<H: Hasher>(i: usize) -> (leaf: Digest)
    ensures
        leaf == position_leaf::<H>(i as nat),
{
    let bytes = u64_to_le_bytes(i as u64);
    H::hash(bytes.as_slice())
}

/// Computes the leaves that stand for the positions below `count`.
pub fn make_position_leaves<H: Hasher>(count: usize) -> (leaves: Vec<Digest>)
    ensures
        leaves@ == position_leaves::<H>(count as nat),
{
    let mut leaves: Vec<Digest> = Vec::new();
    let mut i: usize = 0;
    while i < count
        invariant
            i <= count,
            leaves@ == position_leaves::<H>(i as nat),
        decreases count - i,
    {
        let leaf = make_position_leaf::<H>(i);
        leaves.push(leaf);
        assert(leaves@ =~= position_leaves::<H>((i + 1) as nat));
        i += 1;
    }
    leaves
}

/// Builds the tree over `leaves` and assembles the claim for position
/// `index`. Without leaves there is no root to claim under; with leaves, the
/// index must be below their number.
pub fn claim_for<H: Hasher>(leaves: &[Digest], index: usize) -> (result: Result<
    CheckInput,
    MerkleError,
>)
    ensures
        leaves@.len() == 0 ==> result == Err::<CheckInput, MerkleError>(MerkleError::EmptyTree),
        0 < leaves@.len() <= index ==> result == Err::<CheckInput, MerkleError>(
            MerkleError::IndexOutOfRange,
        ),
        index < leaves@.len() ==> result is Ok && is_claim_for::<H>(
            result->Ok_0,
            leaves@,
            index as int,
        ),
{
    let tree = MerkleTree::<H>::build(leaves);
    let root = match tree.root() {
        Ok(root) => root,
        Err(e) => {
            return Err(e);
        },
    };
    let path = match tree.generate(index) {
        Ok(path) => path,
        Err(e) => {
            return Err(e);
        },
    };
    let proof = encode(path.as_slice());
    Ok(CheckInput { root, leaf: leaves[index], proof, index, total_leaves: leaves.len() })
}

/// Assembles the claim for a position drawn at random among `total_leaves`
/// position leaves. Whichever position is drawn, the result is the honest
/// claim for it.
pub fn random_claim<H: Hasher>(total_leaves: usize) -> (result: Result<CheckInput, MerkleError>)
    ensures
        total_leaves == 0 ==> result == Err::<CheckInput, MerkleError>(MerkleError::EmptyTree),
        total_leaves > 0 ==> result is Ok && is_claim_for::<H>(
            result->Ok_0,
            position_leaves::<H>(total_leaves as nat),
            result->Ok_0.index as int,
        ),
{
    let leaves = make_position_leaves::<H>(total_leaves);
    if total_leaves == 0 {
        return Err(MerkleError::EmptyTree);
    }
    let index = random_below(total_leaves);
    claim_for::<H>(leaves.as_slice(), index)
}

/// An honest claim passes the whole check: its proof bytes decode, the path
/// is accepted, and the committed output ends in the validity byte 1.
pub proof fn law_honest_claim_accepted<H: Hasher>(
    input: CheckInput,
    leaves: Seq<Digest>,
    index: int,
)
    requires
        is_claim_for::<H>(input, leaves, index),
    ensures
        check_output::<H>(
            input.root,
            input.leaf,
            input.proof@,
            input.index as int,
            input.total_leaves as int,
        ) == Ok::<Seq<u8>, MerkleError>(committed_output(input.root, input.leaf, true)),
{
    law_round_trip(sibling_path::<H>(leaves, index));
    law_completeness::<H>(leaves, index);
}

} // verus!
