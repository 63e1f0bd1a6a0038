//! What holds of the model as a whole: generated proofs are accepted, a
//! root binds the leaf at each position, and the wire form loses nothing.

use vstd::prelude::*;
use vstd::arithmetic::power2::{lemma_pow2_unfold, pow2};
use crate::codec::{decode_path, encode_path, lemma_digest_of_bytes, lemma_digest_of_view};
use crate::error::MerkleError;
use crate::hash::{node_digest, Digest, Hasher};
use crate::model::{
    check_claim, commitment, is_carried, merkle_root, parent_layer, path_len, recompute_root,
    sibling_index, sibling_path, tree_height, tree_layers,
};

verus! {

/// Two distinct byte strings with the same digest exist.
pub open spec fn has_collision<H: Hasher>() -> bool {
    exists|x: Seq<u8>, y: Seq<u8>| x != y && #[trigger] H::digest(x) == #[trigger] H::digest(y)
}

/// The commitment is a function of the leaves: equal leaf sequences have
/// the same root, or both have none.
pub proof fn law_root_deterministic<H: Hasher>(first: Seq<Digest>, second: Seq<Digest>)
    requires
        first =~= second,
    ensures
        commitment::<H>(first) == commitment::<H>(second),
{
}

/// The generated path has the length that the verifier expects, and folding
/// it over the leaf gives the root.
pub proof fn lemma_path_recomputes_root<H: Hasher>(leaves: Seq<Digest>, index: int)
    requires
        0 <= index < leaves.len(),
    ensures
        sibling_path::<H>(leaves, index).len() == path_len(index, leaves.len() as int),
        recompute_root::<H>(
            leaves[index],
            index,
            leaves.len() as int,
            sibling_path::<H>(leaves, index),
        ) == merkle_root::<H>(leaves),
    decreases leaves.len(),
{
    if leaves.len() > 1 {
        let above = parent_layer::<H>(leaves);
        lemma_path_recomputes_root::<H>(above, index / 2);
        if !is_carried(index, leaves.len() as int) {
            let path = sibling_path::<H>(leaves, index);
            assert(path[0] == leaves[sibling_index(index)]);
            assert(path.drop_first() =~= sibling_path::<H>(above, index / 2));
        }
    }
}

/// Completeness: for every tree with at least one leaf and every position
/// in it, the proof generated for that position is accepted for that leaf
/// under the tree's root.
pub proof fn law_completeness<H: Hasher>(leaves: Seq<Digest>, index: int)
    requires
        0 <= index < leaves.len(),
    ensures
        check_claim::<H>(
            merkle_root::<H>(leaves),
            index,
            leaves[index],
            leaves.len() as int,
            sibling_path::<H>(leaves, index),
        ) == Ok::<bool, MerkleError>(true),
{
    lemma_path_recomputes_root::<H>(leaves, index);
}

/// Two pairs of children with the same parent digest are the same pair,
/// unless the hash collides.
pub proof fn lemma_node_digest_injective<H: Hasher>(a: Digest, b: Digest, c: Digest, d: Digest)
    requires
        node_digest::<H>(a, b) == node_digest::<H>(c, d),
    ensures
        (a == c && b == d) || has_collision::<H>(),
{
    let x = a@ + b@;
    let y = c@ + d@;
    if x == y {
        assert(a@ =~= x.subrange(0, 32));
        assert(c@ =~= y.subrange(0, 32));
        assert(b@ =~= x.subrange(32, 64));
        assert(d@ =~= y.subrange(32, 64));
        assert(a =~= c);
        assert(b =~= d);
    } else {
        assert(H::digest(x) == H::digest(y));
    }
}

/// Two leaves with paths of the expected length that fold to the same root
/// at the same position are the same leaf with the same path, unless the
/// hash collides.
pub proof fn lemma_recompute_binding<H: Hasher>(
    index: int,
    total: int,
    leaf_a: Digest,
    path_a: Seq<Digest>,
    leaf_b: Digest,
    path_b: Seq<Digest>,
)
    requires
        0 <= index < total,
        path_a.len() == path_len(index, total),
        path_b.len() == path_len(index, total),
        recompute_root::<H>(leaf_a, index, total, path_a) == recompute_root::<H>(
            leaf_b,
            index,
            total,
            path_b,
        ),
    ensures
        (leaf_a == leaf_b && path_a == path_b) || has_collision::<H>(),
    decreases total,
{
    if total <= 1 {
        assert(path_a =~= path_b);
    } else if is_carried(index, total) {
        lemma_recompute_binding::<H>(index / 2, (total + 1) / 2, leaf_a, path_a, leaf_b, path_b);
    } else {
        let node_a = if index % 2 == 0 {
            node_digest::<H>(leaf_a, path_a[0])
        } else {
            node_digest::<H>(path_a[0], leaf_a)
        };
        let node_b = if index % 2 == 0 {
            node_digest::<H>(leaf_b, path_b[0])
        } else {
            node_digest::<H>(path_b[0], leaf_b)
        };
        lemma_recompute_binding::<H>(
            index / 2,
            (total + 1) / 2,
            node_a,
            path_a.drop_first(),
            node_b,
            path_b.drop_first(),
        );
        if !has_collision::<H>() {
            if index % 2 == 0 {
                lemma_node_digest_injective::<H>(leaf_a, path_a[0], leaf_b, path_b[0]);
            } else {
                lemma_node_digest_injective::<H>(path_a[0], leaf_a, path_b[0], leaf_b);
            }
            assert(path_a =~= seq![path_a[0]] + path_a.drop_first());
            assert(path_b =~= seq![path_b[0]] + path_b.drop_first());
        }
    }
}

/// Binding: if two claims for the same position of the same tree shape are
/// both accepted under one root, then they name the same leaf and the same
/// siblings, or the hash has a collision. So changing the leaf or any
/// sibling of an accepted claim makes the check answer `false` unless a
/// collision has been found.
pub proof fn law_binding<H: Hasher>(
    root: Digest,
    index: int,
    total: int,
    leaf_a: Digest,
    path_a: Seq<Digest>,
    leaf_b: Digest,
    path_b: Seq<Digest>,
)
    requires
        check_claim::<H>(root, index, leaf_a, total, path_a) == Ok::<bool, MerkleError>(true),
        check_claim::<H>(root, index, leaf_b, total, path_b) == Ok::<bool, MerkleError>(true),
    ensures
        (leaf_a == leaf_b && path_a == path_b) || has_collision::<H>(),
{
    lemma_recompute_binding::<H>(index, total, leaf_a, path_a, leaf_b, path_b);
}

/// Round trip: decoding the bytes of a path gives the path back.
pub proof fn law_round_trip(path: Seq<Digest>)
    ensures
        decode_path(encode_path(path)) == Ok::<Seq<Digest>, MerkleError>(path),
{
    let bytes = encode_path(path);
    let decoded = decode_path(bytes)->Ok_0;
    assert(decoded.len() == path.len());
    assert forall|k: int| 0 <= k < path.len() implies decoded[k] == path[k] by {
        assert(bytes.subrange(32 * k, 32 * k + 32) =~= path[k]@) by {
            assert forall|j: int| 0 <= j < 32 implies bytes[32 * k + j] == path[k][j] by {
                assert((32 * k + j) / 32 == k);
                assert((32 * k + j) % 32 == j);
            }
        }
        lemma_digest_of_view(path[k]);
    }
    assert(decoded =~= path);
}

/// The other way round: bytes of a whole number of digests decode, and
/// encoding the decoded path gives the bytes back.
pub proof fn law_decode_then_encode(bytes: Seq<u8>)
    requires
        bytes.len() % 32 == 0,
    ensures
        decode_path(bytes) is Ok,
        encode_path(decode_path(bytes)->Ok_0) == bytes,
{
    let path = decode_path(bytes)->Ok_0;
    let again = encode_path(path);
    assert(again.len() == bytes.len());
    assert forall|i: int| 0 <= i < bytes.len() implies again[i] == bytes[i] by {
        let k = i / 32;
        let chunk = bytes.subrange(32 * k, 32 * k + 32);
        lemma_digest_of_bytes(chunk);
        assert(path[k]@ == chunk);
        assert(chunk[i % 32] == bytes[32 * k + i % 32]);
    }
    assert(again =~= bytes);
}

/// Soundness against a tree: a claim accepted under the root of the tree
/// over `leaves` names the leaf that stands at that position and the path
/// that the tree generates for it, unless the hash has a collision.
pub proof fn law_soundness<H: Hasher>(
    leaves: Seq<Digest>,
    index: int,
    leaf: Digest,
    path: Seq<Digest>,
)
    requires
        check_claim::<H>(merkle_root::<H>(leaves), index, leaf, leaves.len() as int, path) == Ok::<
            bool,
            MerkleError,
        >(true),
    ensures
        (leaf == leaves[index] && path == sibling_path::<H>(leaves, index)) || has_collision::<
            H,
        >(),
{
    law_completeness::<H>(leaves, index);
    law_binding::<H>(
        merkle_root::<H>(leaves),
        index,
        leaves.len() as int,
        leaf,
        path,
        leaves[index],
        sibling_path::<H>(leaves, index),
    );
}

/// A tree over one leaf has that leaf as its root and an empty proof, and
/// the empty proof is accepted for it.
pub proof fn law_single_leaf<H: Hasher>(leaf: Digest)
    ensures
        merkle_root::<H>(seq![leaf]) == leaf,
        tree_layers::<H>(seq![leaf]) == seq![seq![leaf]],
        sibling_path::<H>(seq![leaf], 0) == Seq::<Digest>::empty(),
        check_claim::<H>(leaf, 0, leaf, 1, Seq::<Digest>::empty()) == Ok::<bool, MerkleError>(
            true,
        ),
{
}

/// Four leaves: the root is the hash of the two pair hashes, and the proof
/// for the second leaf is the first leaf followed by the hash of the other
/// pair.
pub proof fn law_four_leaves<H: Hasher>(l0: Digest, l1: Digest, l2: Digest, l3: Digest)
    ensures
        merkle_root::<H>(seq![l0, l1, l2, l3]) == node_digest::<H>(
            node_digest::<H>(l0, l1),
            node_digest::<H>(l2, l3),
        ),
        sibling_path::<H>(seq![l0, l1, l2, l3], 1) == seq![l0, node_digest::<H>(l2, l3)],
{
    let leaves = seq![l0, l1, l2, l3];
    let above = seq![node_digest::<H>(l0, l1), node_digest::<H>(l2, l3)];
    let top = seq![node_digest::<H>(above[0], above[1])];
    assert(parent_layer::<H>(leaves) =~= above);
    assert(parent_layer::<H>(above) =~= top);
    assert(merkle_root::<H>(above) == merkle_root::<H>(top));
    assert(sibling_path::<H>(top, 0) =~= Seq::<Digest>::empty());
    assert(sibling_path::<H>(above, 0) =~= seq![above[1]]);
    assert(sibling_path::<H>(leaves, 1) =~= seq![l0, above[1]]);
}

/// Three leaves: the third is carried into the second layer unchanged and
/// hashed there; its proof has no entry for the layer it was carried
/// across, only the hash of the first pair.
pub proof fn law_three_leaves<H: Hasher>(l0: Digest, l1: Digest, l2: Digest)
    ensures
        parent_layer::<H>(seq![l0, l1, l2]) == seq![node_digest::<H>(l0, l1), l2],
        merkle_root::<H>(seq![l0, l1, l2]) == node_digest::<H>(node_digest::<H>(l0, l1), l2),
        sibling_path::<H>(seq![l0, l1, l2], 2) == seq![node_digest::<H>(l0, l1)],
{
    let leaves = seq![l0, l1, l2];
    let above = seq![node_digest::<H>(l0, l1), l2];
    let top = seq![node_digest::<H>(above[0], above[1])];
    assert(parent_layer::<H>(leaves) =~= above);
    assert(parent_layer::<H>(above) =~= top);
    assert(merkle_root::<H>(above) == merkle_root::<H>(top));
    assert(sibling_path::<H>(top, 0) =~= Seq::<Digest>::empty());
    assert(sibling_path::<H>(above, 1) =~= seq![above[0]]);
    assert(sibling_path::<H>(leaves, 2) =~= seq![above[0]]);
}

/// An index equal to the number of leaves is an error whatever the root,
/// the leaf and the path are: no boolean is returned.
pub proof fn law_index_at_total_is_error<H: Hasher>(
    root: Digest,
    leaf: Digest,
    total: int,
    path: Seq<Digest>,
)
    ensures
        check_claim::<H>(root, total, leaf, total, path) == Err::<bool, MerkleError>(
            MerkleError::IndexOutOfRange,
        ),
{
}

/// The tree over `leaves` has one layer more than its height, each layer
/// half as wide as the one below, rounded up.
pub proof fn law_layer_count<H: Hasher>(leaves: Seq<Digest>)
    ensures
        tree_layers::<H>(leaves).len() == tree_height(leaves.len()) + 1,
        forall|k: int|
            0 <= k < tree_layers::<H>(leaves).len() - 1 ==> (#[trigger] tree_layers::<H>(
                leaves,
            )[k + 1]).len() == (tree_layers::<H>(leaves)[k].len() + 1) / 2,
    decreases leaves.len(),
{
    if leaves.len() > 1 {
        let above = parent_layer::<H>(leaves);
        law_layer_count::<H>(above);
        let layers = tree_layers::<H>(leaves);
        assert forall|k: int| 0 <= k < layers.len() - 1 implies (#[trigger] layers[k + 1]).len()
            == (layers[k].len() + 1) / 2 by {
            if k > 0 {
                assert(layers[k + 1] == tree_layers::<H>(above)[k - 1 + 1]);
                assert(layers[k] == tree_layers::<H>(above)[k - 1]);
            }
        }
    }
}

/// For more than one leaf the height `h` is the least with `count <= 2^h`.
pub proof fn law_height_bounds(count: nat)
    requires
        count > 1,
    ensures
        tree_height(count) >= 1,
        pow2((tree_height(count) - 1) as nat) < count <= pow2(tree_height(count)),
    decreases count,
{
    let above = ((count + 1) / 2) as nat;
    lemma_pow2_unfold(tree_height(count));
    if above > 1 {
        law_height_bounds(above);
        lemma_pow2_unfold(tree_height(above));
    } else {
        assert(pow2(0) == 1) by {
            vstd::arithmetic::power2::lemma2_to64();
        }
    }
}

/// A proof never has more siblings than the tree has pairing steps.
pub proof fn law_path_len_bound(index: int, total: int)
    requires
        0 <= index < total,
    ensures
        path_len(index, total) <= tree_height(total as nat),
    decreases total,
{
    if total > 1 {
        law_path_len_bound(index / 2, (total + 1) / 2);
    }
}

} // verus!
