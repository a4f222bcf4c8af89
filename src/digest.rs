//! The hash function of the tree: SHA-384.

use vstd::prelude::*;

use sha2::Digest;

verus! {

/// Width in bytes of every hash value: a SHA-384 digest.
pub const HASH_LEN: usize = 48;

/// The SHA-384 digest of a byte sequence.
pub uninterp spec fn sha384_of(data: Seq<u8>) -> Seq<u8>;

/// Every digest has the fixed width of a hash value.
pub open spec fn digest_width_fixed() -> bool {
    forall|data: Seq<u8>| #[trigger] sha384_of(data).len() == HASH_LEN
}

/// Two distinct byte sequences with the same SHA-384 digest exist.
pub open spec fn sha384_collides() -> bool {
    exists|x: Seq<u8>, y: Seq<u8>| x != y && #[trigger] sha384_of(x) == #[trigger] sha384_of(y)
}

/// Relies on `sha2::Sha384::digest` (through `sha2::Digest`): the digest of
/// the bytes, 48 bytes long.
#[verifier::external_body]
pub(crate) fn sha384(data: &[u8]) -> (digest: Vec<u8>)
    ensures
        digest@ == sha384_of(data@),
        digest@.len() == HASH_LEN,
{
    sha2::Sha384::digest(data).to_vec()
}

} // verus!
