//! One inclusion check from its five inputs to its committed output.
//!
//! The inputs are a root, a leaf, the bytes of a proof, a leaf index and the
//! number of leaves. The output is the root, the leaf and one validity
//! byte, 65 bytes in all.

use vstd::prelude::*;
use vstd::slice::slice_subrange;
use crate::codec::{decode, decode_path, digest_of, lemma_digest_of_view};
use crate::error::MerkleError;
use crate::hash::{Digest, Hasher};
use crate::model::check_claim;
use crate::verify::verify;

verus! {

/// Number of bytes in a committed output.
pub const OUTPUT_LEN: usize = 65;

/// The validity byte: 1 for `true`, 0 for `false`.
pub open spec fn validity_byte(valid: bool) -> u8 {
    if valid {
        1u8
    } else {
        0u8
    }
}

/// The committed output: root, then leaf, then the validity byte.
pub open spec fn committed_output(root: Digest, leaf: Digest, valid: bool) -> Seq<u8> {
    root@ + leaf@ + seq![validity_byte(valid)]
}

/// The result of a whole check: the proof bytes are decoded, the claim is
/// checked, and the answer is committed. An error of either step is the
/// error of the whole.
pub open spec fn check_output<H: Hasher>(
    root: Digest,
    leaf: Digest,
    proof: Seq<u8>,
    index: int,
    total: int,
) -> Result<Seq<u8>, MerkleError> {
    match decode_path(proof) {
        Err(e) => Err(e),
        Ok(path) => match check_claim::<H>(root, index, leaf, total, path) {
            Err(e) => Err(e),
            Ok(valid) => Ok(committed_output(root, leaf, valid)),
        },
    }
}

/// Lays out the committed output for an answer.
pub fn commit_output(root: &Digest, leaf: &Digest, valid: bool) -> (out: Vec<u8>)
    ensures
        out@ == committed_output(*root, *leaf, valid),
{
    let mut out: Vec<u8> = Vec::with_capacity(65);
    out.extend_from_slice(root.as_slice());
    out.extend_from_slice(leaf.as_slice());
    let flag: u8 = if valid {
        1
    } else {
        0
    };
    out.push(flag);
    assert(out@ =~= committed_output(*root, *leaf, valid));
    out
}

/// Runs one inclusion check: decodes `proof`, verifies the claim and
/// returns the bytes to commit.
pub fn check_inclusion<H: Hasher>(
    root: &Digest,
    leaf: &Digest,
    proof: &[u8],
    index: usize,
    total_leaves: usize,
) -> (result: Result<Vec<u8>, MerkleError>)
    ensures
        match result {
            Ok(out) => check_output::<H>(*root, *leaf, proof@, index as int, total_leaves as int)
                == Ok::<Seq<u8>, MerkleError>(out@),
            Err(e) => check_output::<H>(*root, *leaf, proof@, index as int, total_leaves as int)
                == Err::<Seq<u8>, MerkleError>(e),
        },
{
    let path = match decode(proof) {
        Ok(path) => path,
        Err(e) => {
            return Err(e);
        },
    };
    match verify::<H>(root, index, leaf, total_leaves, path.as_slice()) {
        Ok(valid) => Ok(commit_output(root, leaf, valid)),
        Err(e) => Err(e),
    }
}

/// A committed output taken apart.
#[derive(Clone, Copy, Debug, PartialEq, Eq)]
pub struct CommittedOutput {
    pub root: Digest,
    pub leaf: Digest,
    pub is_valid: bool,
}

/// What the first 65 bytes of `bytes` say: the root, the leaf, and whether
/// the validity byte is not zero.
pub open spec fn parsed_output(bytes: Seq<u8>) -> CommittedOutput
    recommends
        bytes.len() >= 65,
{
    CommittedOutput {
        root: digest_of(bytes.subrange(0, 32)),
        leaf: digest_of(bytes.subrange(32, 64)),
        is_valid: bytes[64] != 0,
    }
}

/// Copies 32 bytes into a digest.
fn digest_from_slice(bytes: &[u8]) -> (digest: Digest)
    requires
        bytes@.len() == 32,
    ensures
        digest@ == bytes@,
        digest == digest_of(bytes@),
{
    let mut digest: Digest = [0u8;32];
    let mut j: usize = 0;
    while j < 32
        invariant
            j <= 32,
            bytes@.len() == 32,
            forall|i: int| 0 <= i < j ==> digest[i] == bytes@[i],
        decreases 32 - j,
    {
        digest[j] = bytes[j];
        j += 1;
    }
    assert(digest@ =~= bytes@);
    proof {
        lemma_digest_of_view(digest);
    }
    digest
}

/// Takes a committed output apart. Bytes after the first 65 are not read.
pub fn read_output(bytes: &[u8]) -> (out: CommittedOutput)
    requires
        bytes@.len() >= 65,
    ensures
        out == parsed_output(bytes@),
{
    let root = digest_from_slice(slice_subrange(bytes, 0, 32));
    let leaf = digest_from_slice(slice_subrange(bytes, 32, 64));
    CommittedOutput { root, leaf, is_valid: bytes[64] != 0 }
}

/// Reading a committed output gives back what was committed.
pub proof fn law_output_round_trip(root: Digest, leaf: Digest, valid: bool)
    ensures
        committed_output(root, leaf, valid).len() == 65,
        parsed_output(committed_output(root, leaf, valid)) == (CommittedOutput {
            root,
            leaf,
            is_valid: valid,
        }),
{
    let bytes = committed_output(root, leaf, valid);
    assert(bytes.subrange(0, 32) =~= root@);
    assert(bytes.subrange(32, 64) =~= leaf@);
    lemma_digest_of_view(root);
    lemma_digest_of_view(leaf);
}

} // verus!
