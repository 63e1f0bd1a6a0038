//! Digests and the hash that produces them.

use vstd::prelude::*;

verus! {

/// Number of bytes in a digest.
pub const DIGEST_LEN: usize = 32;

/// A 256-bit hash value: a leaf, an inner node or a root.
pub type Digest = [u8; 32];

/// A hash from byte strings to digests.
///
/// `digest` is the mathematical function; `hash` computes it. That `hash` is
/// described by a function of the bytes alone is what makes every commitment
/// reproducible.
pub trait Hasher {
    /// The digest of `data`.
    spec fn digest(data: Seq<u8>) -> Digest;

    /// Computes the digest of `data`.
    fn hash(data: &[u8]) -> (out: Digest)
        ensures
            out == Self::digest(data@),
    ;
}

/// The SHA-256 digest of `data`, as the `sha2` crate computes it.
pub uninterp spec fn sha256_digest(data: Seq<u8>) -> [u8; 32];

/// Calls `sha2::Sha256::digest` on `data` and copies the 32 bytes of its
/// output into an array. The contract claims only that the result is a
/// function of the input bytes, named `sha256_digest`.
#[verifier::external_body]
fn sha256(data: &[u8]) -> (out: Digest)
    ensures
        out == sha256_digest(data@),
{
    <sha2::Sha256 as sha2::Digest>::digest(data).into()
}

/// SHA-256 as a [`Hasher`].
#[derive(Clone, Copy, Debug)]
pub struct Sha256Hasher;

impl Hasher for Sha256Hasher {
    open spec fn digest(data: Seq<u8>) -> Digest {
        sha256_digest(data)
    }

    fn hash(data: &[u8]) -> (out: Digest) {
        sha256(data)
    }
}

/// The digest of an inner node: the hash of its left child's bytes followed
/// by its right child's bytes, with nothing in between.
pub open spec fn node_digest<H: Hasher>(left: Digest, right: Digest) -> Digest {
    H::digest(left@ + right@)
}

/// Hashes two child digests into their parent.
pub fn hash_pair<H: Hasher>(left: &Digest, right: &Digest) -> (out: Digest)
    ensures
        out == node_digest::<H>(*left, *right),
{
    let mut buf: Vec<u8> = Vec::with_capacity(2 * DIGEST_LEN);
    buf.extend_from_slice(left.as_slice());
    buf.extend_from_slice(right.as_slice());
    assert(buf@ =~= left@ + right@);
    H::hash(buf.as_slice())
}

/// Whether two digests hold the same bytes.
pub fn digest_eq(a: &Digest, b: &Digest) -> (same: bool)
    ensures
        same == (*a == *b),
{
    let mut i: usize = 0;
    while i < 32
        invariant
            i <= 32,
            forall|k: int| 0 <= k < i ==> a[k] == b[k],
        decreases 32 - i,
    {
        if a[i] != b[i] {
            return false;
        }
        i += 1;
    }
    assert(*a =~= *b);
    true
}

} // verus!
