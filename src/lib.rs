//! Verification of a Merkle membership proof together with an ECDSA
//! attestation over the recomputed root.
//!
//! A run takes a leaf, the sibling hashes on its path to the root, a claimed
//! root, an encoded secp256k1 public key and a signature. It recomputes the
//! root, checks it against the claimed one byte for byte, checks the
//! signature over the recomputed root, and on success yields the only data
//! that leaves the run: the public key and the root.

pub mod attest;
pub mod digest;
pub mod merkle;
pub mod order;
pub mod signature;
