use goldinals_merkle_tree::claim::make_position_leaves;
use goldinals_merkle_tree::codec::{decode, encode};
use goldinals_merkle_tree::error::MerkleError;
use goldinals_merkle_tree::hash::{hash_pair, Digest, Sha256Hasher};
use goldinals_merkle_tree::tree::MerkleTree;
use goldinals_merkle_tree::verify::verify;

fn sample(count: usize) -> (Vec<Digest>, MerkleTree<Sha256Hasher>, Digest) {
    let leaves = make_position_leaves::<Sha256Hasher>(count);
    let tree = MerkleTree::<Sha256Hasher>::build(&leaves);
    let root = tree.root().unwrap();
    (leaves, tree, root)
}

#[test]
fn four_leaves_path_for_index_one() {
    let (l, tree, root) = sample(4);
    let n01 = hash_pair::<Sha256Hasher>(&l[0], &l[1]);
    let n23 = hash_pair::<Sha256Hasher>(&l[2], &l[3]);
    assert_eq!(root, hash_pair::<Sha256Hasher>(&n01, &n23));
    let path = tree.generate(1).unwrap();
    assert_eq!(path, vec![l[0], n23]);
    assert_eq!(verify::<Sha256Hasher>(&root, 1, &l[1], 4, &path), Ok(true));
}

#[test]
fn three_leaves_carried_node_has_shorter_path() {
    let (l, tree, root) = sample(3);
    let n01 = hash_pair::<Sha256Hasher>(&l[0], &l[1]);
    assert_eq!(root, hash_pair::<Sha256Hasher>(&n01, &l[2]));
    let path = tree.generate(2).unwrap();
    assert_eq!(path, vec![n01]);
    assert_eq!(verify::<Sha256Hasher>(&root, 2, &l[2], 3, &path), Ok(true));
    assert_eq!(tree.generate(0).unwrap(), vec![l[1], l[2]]);
    assert_eq!(tree.generate(1).unwrap(), vec![l[0], l[2]]);
}

#[test]
fn five_leaves_last_is_carried_twice() {
    let (l, tree, root) = sample(5);
    let n01 = hash_pair::<Sha256Hasher>(&l[0], &l[1]);
    let n23 = hash_pair::<Sha256Hasher>(&l[2], &l[3]);
    let left = hash_pair::<Sha256Hasher>(&n01, &n23);
    let path = tree.generate(4).unwrap();
    assert_eq!(path, vec![left]);
    assert_eq!(verify::<Sha256Hasher>(&root, 4, &l[4], 5, &path), Ok(true));
    assert_eq!(tree.generate(2).unwrap(), vec![l[3], n01, l[4]]);
}

#[test]
fn single_leaf_verifies_with_empty_path() {
    let leaf = [9u8; 32];
    let tree = MerkleTree::<Sha256Hasher>::build(&[leaf]);
    assert_eq!(tree.root(), Ok(leaf));
    assert_eq!(tree.generate(0), Ok(vec![]));
    assert_eq!(verify::<Sha256Hasher>(&leaf, 0, &leaf, 1, &[]), Ok(true));
    let other = [8u8; 32];
    assert_eq!(verify::<Sha256Hasher>(&other, 0, &leaf, 1, &[]), Ok(false));
}

#[test]
fn every_generated_path_is_accepted() {
    for count in 1usize..=40 {
        let (l, tree, root) = sample(count);
        for index in 0..count {
            let path = tree.generate(index).unwrap();
            assert_eq!(
                verify::<Sha256Hasher>(&root, index, &l[index], count, &path),
                Ok(true)
            );
        }
    }
}

#[test]
fn index_equal_to_total_is_an_error() {
    for count in [1usize, 2, 3, 8] {
        let (l, tree, root) = sample(count);
        let path = tree.generate(0).unwrap();
        assert_eq!(
            verify::<Sha256Hasher>(&root, count, &l[0], count, &path),
            Err(MerkleError::IndexOutOfRange)
        );
        assert_eq!(tree.generate(count), Err(MerkleError::IndexOutOfRange));
    }
}

#[test]
fn index_beyond_total_is_an_error() {
    let (l, tree, root) = sample(4);
    let path = tree.generate(0).unwrap();
    assert_eq!(
        verify::<Sha256Hasher>(&root, 9, &l[0], 4, &path),
        Err(MerkleError::IndexOutOfRange)
    );
    assert_eq!(tree.generate(usize::MAX), Err(MerkleError::IndexOutOfRange));
}

#[test]
fn zero_total_is_an_error() {
    let leaf = [1u8; 32];
    assert_eq!(
        verify::<Sha256Hasher>(&leaf, 0, &leaf, 0, &[]),
        Err(MerkleError::IndexOutOfRange)
    );
}

#[test]
fn path_that_ends_early_is_malformed() {
    let (l, tree, root) = sample(8);
    let mut path = tree.generate(3).unwrap();
    assert_eq!(path.len(), 3);
    path.pop();
    assert_eq!(
        verify::<Sha256Hasher>(&root, 3, &l[3], 8, &path),
        Err(MerkleError::MalformedProof)
    );
    assert_eq!(
        verify::<Sha256Hasher>(&root, 3, &l[3], 8, &[]),
        Err(MerkleError::MalformedProof)
    );
}

#[test]
fn subtree_root_is_not_accepted_as_root() {
    let (l, tree, _) = sample(4);
    let n01 = hash_pair::<Sha256Hasher>(&l[0], &l[1]);
    let mut path = tree.generate(0).unwrap();
    path.pop();
    assert_eq!(
        verify::<Sha256Hasher>(&n01, 0, &l[0], 4, &path),
        Err(MerkleError::MalformedProof)
    );
}

#[test]
fn path_with_siblings_left_over_is_false() {
    let (l, tree, root) = sample(8);
    let mut path = tree.generate(3).unwrap();
    path.push([0u8; 32]);
    assert_eq!(verify::<Sha256Hasher>(&root, 3, &l[3], 8, &path), Ok(false));
    assert_eq!(
        verify::<Sha256Hasher>(&l[0], 0, &l[0], 1, &[[0u8; 32]]),
        Ok(false)
    );
}

#[test]
fn inner_node_is_not_accepted_as_leaf() {
    let (l, _, root) = sample(3);
    let n01 = hash_pair::<Sha256Hasher>(&l[0], &l[1]);
    assert_eq!(verify::<Sha256Hasher>(&root, 1, &l[2], 3, &[n01]), Err(MerkleError::MalformedProof));
    assert_eq!(verify::<Sha256Hasher>(&root, 1, &l[2], 3, &[n01, l[2]]), Ok(false));
}

#[test]
fn wrong_root_is_false() {
    let (l, tree, root) = sample(6);
    let path = tree.generate(2).unwrap();
    let mut other = root;
    other[0] ^= 1;
    assert_eq!(verify::<Sha256Hasher>(&other, 2, &l[2], 6, &path), Ok(false));
}

#[test]
fn flipping_a_leaf_bit_is_false() {
    let (l, tree, root) = sample(7);
    for index in 0..7 {
        let path = tree.generate(index).unwrap();
        for byte in [0usize, 13, 31] {
            for bit in [0u8, 7] {
                let mut leaf = l[index];
                leaf[byte] ^= 1 << bit;
                assert_eq!(
                    verify::<Sha256Hasher>(&root, index, &leaf, 7, &path),
                    Ok(false)
                );
            }
        }
    }
}

#[test]
fn flipping_a_sibling_bit_is_false() {
    let (l, tree, root) = sample(7);
    for index in 0..7 {
        let path = tree.generate(index).unwrap();
        for k in 0..path.len() {
            let mut changed = path.clone();
            changed[k][5] ^= 0x10;
            assert_eq!(
                verify::<Sha256Hasher>(&root, index, &l[index], 7, &changed),
                Ok(false)
            );
        }
    }
}

#[test]
fn flipping_an_index_bit_is_not_accepted() {
    let (l, tree, root) = sample(8);
    for index in 0..8usize {
        let path = tree.generate(index).unwrap();
        for bit in 0..3 {
            let claimed = index ^ (1 << bit);
            assert_eq!(
                verify::<Sha256Hasher>(&root, claimed, &l[index], 8, &path),
                Ok(false)
            );
        }
        let far = index ^ (1 << 3);
        assert_eq!(
            verify::<Sha256Hasher>(&root, far, &l[index], 8, &path),
            Err(MerkleError::IndexOutOfRange)
        );
    }
}

#[test]
fn path_for_another_leaf_is_false() {
    let (l, tree, root) = sample(8);
    let path = tree.generate(5).unwrap();
    assert_eq!(verify::<Sha256Hasher>(&root, 5, &l[4], 8, &path), Ok(false));
}

#[test]
fn path_length_counts_pairing_levels() {
    let (_, tree, _) = sample(11);
    let lengths: Vec<usize> = (0..11).map(|i| tree.generate(i).unwrap().len()).collect();
    assert_eq!(lengths, vec![4, 4, 4, 4, 4, 4, 4, 4, 3, 3, 2]);
}

#[test]
fn encode_is_plain_concatenation() {
    let a = [0x11u8; 32];
    let b = [0x22u8; 32];
    let bytes = encode(&[a, b]);
    assert_eq!(bytes.len(), 64);
    assert_eq!(&bytes[..32], &a[..]);
    assert_eq!(&bytes[32..], &b[..]);
    assert!(encode(&[]).is_empty());
}

#[test]
fn decode_splits_into_digests() {
    let mut bytes = vec![0u8; 96];
    for (i, byte) in bytes.iter_mut().enumerate() {
        *byte = i as u8;
    }
    let path = decode(&bytes).unwrap();
    assert_eq!(path.len(), 3);
    for k in 0..3 {
        for j in 0..32 {
            assert_eq!(path[k][j], (32 * k + j) as u8);
        }
    }
    assert_eq!(decode(&[]), Ok(vec![]));
}

#[test]
fn decode_rejects_partial_digest() {
    assert_eq!(decode(&[0u8; 1]), Err(MerkleError::MalformedProof));
    assert_eq!(decode(&[0u8; 31]), Err(MerkleError::MalformedProof));
    assert_eq!(decode(&[0u8; 33]), Err(MerkleError::MalformedProof));
    assert_eq!(decode(&[0u8; 95]), Err(MerkleError::MalformedProof));
}

#[test]
fn decode_undoes_encode_for_generated_paths() {
    for count in 1usize..=20 {
        let (_, tree, _) = sample(count);
        for index in 0..count {
            let path = tree.generate(index).unwrap();
            let bytes = encode(&path);
            assert_eq!(bytes.len(), 32 * path.len());
            assert_eq!(decode(&bytes), Ok(path));
        }
    }
}

#[test]
fn encode_undoes_decode() {
    let bytes: Vec<u8> = (0..128u32).map(|i| (i * 7 % 251) as u8).collect();
    let path = decode(&bytes).unwrap();
    assert_eq!(encode(&path), bytes);
}
