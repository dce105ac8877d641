//! A binary Merkle tree over an ordered sequence of data blocks, built with
//! SHA-256, with its construction proved against a mathematical model.
pub mod builder;
pub mod digest;
pub mod hex;
pub mod model;
pub mod node;
pub mod theorems;

pub use builder::{build_merkle_tree, build_merkle_tree_from_digests};
pub use node::{MerkleError, Node};
