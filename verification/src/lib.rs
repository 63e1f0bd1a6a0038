//! Merkle commitments over 32-byte digests, with single-leaf inclusion proofs.
//!
//! A tree is built from an ordered sequence of leaves by hashing adjacent pairs
//! layer by layer; a node without a partner is carried into the next layer
//! unchanged. An inclusion proof is the list of sibling digests met on the way
//! from one leaf to the root. Every function is stated against a mathematical
//! model of the tree and proved to meet it.

pub mod error;
pub mod hash;
pub mod model;
pub mod tree;
pub mod verify;
pub mod codec;
pub mod laws;
pub mod driver;
pub mod claim;
pub mod fixture;
pub mod mode;
