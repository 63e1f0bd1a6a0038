//! The wire form of a sibling path: its digests one after another.

use vstd::prelude::*;
use crate::error::MerkleError;
use crate::hash::Digest;

verus! {

/// The digest whose bytes are `bytes`, a sequence of 32 bytes.
pub open spec fn digest_of(bytes: Seq<u8>) -> Digest
    recommends
        bytes.len() == 32,
{
    choose|d: Digest| d@ == bytes
}

/// The bytes of a path: 32 bytes per digest, in order, with no separator
/// and no length prefix.
pub open spec fn encode_path(path: Seq<Digest>) -> Seq<u8> {
    Seq::new(32 * path.len(), |i: int| path[i / 32][i % 32])
}

/// The path that `bytes` stand for: one digest per 32 bytes. A length that
/// is not a multiple of 32 is malformed.
pub open spec fn decode_path(bytes: Seq<u8>) -> Result<Seq<Digest>, MerkleError> {
    if bytes.len() % 32 != 0 {
        Err(MerkleError::MalformedProof)
    } else {
        Ok(
            Seq::new(
                bytes.len() / 32,
                |k: int| digest_of(bytes.subrange(32 * k, 32 * k + 32)),
            ),
        )
    }
}

/// A digest that agrees with `bytes` on its first `count` entries.
pub open spec fn digest_with_prefix(bytes: Seq<u8>, count: nat) -> Digest
    decreases count,
{
    if count == 0 {
        arbitrary()
    } else {
        vstd::array::spec_array_update(
            digest_with_prefix(bytes, (count - 1) as nat),
            count - 1,
            bytes[count - 1],
        )
    }
}

/// Every sequence of 32 bytes is the content of a digest.
pub proof fn lemma_digest_of_bytes(bytes: Seq<u8>)
    requires
        bytes.len() == 32,
    ensures
        digest_of(bytes)@ == bytes,
{
    lemma_prefix_agrees(bytes, 32);
    assert(digest_with_prefix(bytes, 32)@ =~= bytes);
}

proof fn lemma_prefix_agrees(bytes: Seq<u8>, count: nat)
    requires
        bytes.len() == 32,
        count <= 32,
    ensures
        forall|i: int| 0 <= i < count ==> digest_with_prefix(bytes, count)@[i] == bytes[i],
    decreases count,
{
    if count > 0 {
        lemma_prefix_agrees(bytes, (count - 1) as nat);
    }
}

/// A digest is the digest of its own bytes.
pub proof fn lemma_digest_of_view(d: Digest)
    ensures
        digest_of(d@) == d,
{
    let e = digest_of(d@);
    assert(e@ == d@);
    assert(e =~= d);
}

/// Writes `path` to bytes.
pub fn encode(path: &[Digest]) -> (bytes: Vec<u8>)
    ensures
        bytes@ == encode_path(path@),
{
    let mut bytes: Vec<u8> = Vec::new();
    let mut k: usize = 0;
    while k < path.len()
        invariant
            k <= path.len(),
            bytes@ == encode_path(path@.take(k as int)),
        decreases path.len() - k,
    {
        let ghost before = bytes@;
        bytes.extend_from_slice(path[k].as_slice());
        assert(bytes@ =~= encode_path(path@.take(k + 1))) by {
            assert(bytes@.len() == 32 * (k + 1));
            assert forall|i: int| 0 <= i < bytes@.len() implies bytes@[i] == encode_path(
                path@.take(k + 1),
            )[i] by {
                if i < 32 * k {
                    assert(bytes@[i] == before[i]);
                } else {
                    assert(i / 32 == k as int);
                    assert(i % 32 == i - 32 * k);
                }
            }
        }
        k += 1;
    }
    assert(path@.take(path.len() as int) =~= path@);
    bytes
}

/// Copies the 32 bytes of `bytes` that start at `start` into a digest.
fn read_digest(bytes: &[u8], start: usize) -> (digest: Digest)
    requires
        start + 32 <= bytes@.len(),
    ensures
        digest@ == bytes@.subrange(start as int, start + 32),
{
    let len: usize = bytes.len();
    let mut digest: Digest = [0u8;32];
    let mut j: usize = 0;
    while j < 32
        invariant
            j <= 32,
            start + 32 <= len == bytes@.len(),
            forall|i: int| 0 <= i < j ==> digest[i] == bytes@[start + i],
        decreases 32 - j,
    {
        digest[j] = bytes[start + j];
        j += 1;
    }
    assert(digest@ =~= bytes@.subrange(start as int, start + 32));
    digest
}

/// Reads a path back from bytes.
pub fn decode(bytes: &[u8]) -> (result: Result<Vec<Digest>, MerkleError>)
    ensures
        match result {
            Ok(path) => decode_path(bytes@) == Ok::<Seq<Digest>, MerkleError>(path@),
            Err(e) => decode_path(bytes@) == Err::<Seq<Digest>, MerkleError>(e),
        },
{
    if bytes.len() % 32 != 0 {
        return Err(MerkleError::MalformedProof);
    }
    let len: usize = bytes.len();
    let count: usize = len / 32;
    let mut path: Vec<Digest> = Vec::with_capacity(count);
    let mut k: usize = 0;
    while k < count
        invariant
            k <= count,
            count * 32 == len == bytes@.len(),
            path.len() == k,
            forall|j: int|
                0 <= j < k ==> path[j] == digest_of(#[trigger] bytes@.subrange(32 * j, 32 * j + 32)),
        decreases count - k,
    {
        let digest = read_digest(bytes, 32 * k);
        proof {
            lemma_digest_of_view(digest);
        }
        path.push(digest);
        k += 1;
    }
    assert(path@ =~= decode_path(bytes@)->Ok_0);
    Ok(path)
}

} // verus!
