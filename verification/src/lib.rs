//! A binary hash tree over an ordered sequence of opaque data blocks, with
//! membership proofs: building pairs consecutive nodes bottom-up and carries
//! an unpaired final node forward unchanged; a proof lists the sibling
//! digests along a path, and verifying folds them back to a root digest.
//! The digest itself is an external collaborator, reached only through the
//! trusted interface in `hashing`.

pub mod hashing;
pub mod laws;
pub mod merkle;
pub mod model;
pub mod merkle_tree;
pub mod merkle_tree_factory;
