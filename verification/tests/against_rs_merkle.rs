use goldinals_merkle_tree::claim::make_position_leaves;
use goldinals_merkle_tree::codec::{decode, encode};
use goldinals_merkle_tree::hash::{Hasher, Sha256Hasher};
use goldinals_merkle_tree::tree::MerkleTree;
use goldinals_merkle_tree::verify::verify;
use rs_merkle::algorithms::Sha256;
use rs_merkle::Hasher as OtherHasher;

#[test]
fn hash_agrees_with_rs_merkle_sha256() {
    for input in [&b""[..], &b"abc"[..], &[0u8; 64][..], &[0xffu8; 200][..]] {
        assert_eq!(Sha256Hasher::hash(input), Sha256::hash(input));
    }
}

#[test]
fn root_agrees_with_rs_merkle() {
    for count in 1usize..=70 {
        let leaves = make_position_leaves::<Sha256Hasher>(count);
        let ours = MerkleTree::<Sha256Hasher>::build(&leaves).root().unwrap();
        let theirs = rs_merkle::MerkleTree::<Sha256>::from_leaves(&leaves).root().unwrap();
        assert_eq!(ours, theirs);
    }
}

#[test]
fn proof_bytes_agree_with_rs_merkle() {
    for count in 1usize..=40 {
        let leaves = make_position_leaves::<Sha256Hasher>(count);
        let ours = MerkleTree::<Sha256Hasher>::build(&leaves);
        let theirs = rs_merkle::MerkleTree::<Sha256>::from_leaves(&leaves);
        for index in 0..count {
            let path = ours.generate(index).unwrap();
            assert_eq!(encode(&path), theirs.proof(&[index]).to_bytes());
        }
    }
}

#[test]
fn rs_merkle_accepts_generated_proofs() {
    for count in 1usize..=40 {
        let leaves = make_position_leaves::<Sha256Hasher>(count);
        let tree = MerkleTree::<Sha256Hasher>::build(&leaves);
        let root = tree.root().unwrap();
        for index in 0..count {
            let bytes = encode(&tree.generate(index).unwrap());
            let proof = rs_merkle::MerkleProof::<Sha256>::from_bytes(&bytes).unwrap();
            assert!(proof.verify(root, &[index], &[leaves[index]], count));
        }
    }
}

#[test]
fn proofs_of_rs_merkle_are_accepted() {
    for count in 1usize..=40 {
        let leaves = make_position_leaves::<Sha256Hasher>(count);
        let theirs = rs_merkle::MerkleTree::<Sha256>::from_leaves(&leaves);
        let root = theirs.root().unwrap();
        for index in 0..count {
            let bytes = theirs.proof(&[index]).to_bytes();
            let path = decode(&bytes).unwrap();
            assert_eq!(
                verify::<Sha256Hasher>(&root, index, &leaves[index], count, &path),
                Ok(true)
            );
        }
    }
}

#[test]
fn malformed_length_is_rejected_by_both() {
    let bytes = [0u8; 40];
    assert!(decode(&bytes).is_err());
    assert!(rs_merkle::MerkleProof::<Sha256>::from_bytes(&bytes).is_err());
}
