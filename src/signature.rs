//! ECDSA over secp256k1: checking a signature over a root.

use vstd::prelude::*;

use k256::ecdsa::signature::Verifier;

verus! {

/// What the signature check found.
#[derive(Clone, Copy, Debug, PartialEq, Eq, Structural)]
pub enum SignatureCheck {
    /// The public key does not decode as a SEC1-encoded point on the curve.
    KeyMalformed,
    /// The signature is not a 64-byte `r || s` with both scalars in range.
    SignatureMalformed,
    /// Both decode, and the verification equation fails.
    Rejected,
    /// Both decode, and the verification equation holds.
    Accepted,
}

/// The bytes decode as a SEC1-encoded secp256k1 point other than the
/// identity.
pub uninterp spec fn sec1_key_valid(key: Seq<u8>) -> bool;

/// The bytes are a fixed-width ECDSA signature: `r` and `s`, 32 bytes each,
/// big endian, both in `1..n`.
pub uninterp spec fn signature_decodes(signature: Seq<u8>) -> bool;

/// ECDSA verification (SHA-256 of the message, low `s` required) accepts
/// the signature over the message under the key.
pub uninterp spec fn ecdsa_accepts(key: Seq<u8>, message: Seq<u8>, signature: Seq<u8>) -> bool;

/// The verdict on a key, a message and a signature: decoding comes first,
/// the key before the signature, then the verification equation.
pub open spec fn signature_verdict(key: Seq<u8>, message: Seq<u8>, signature: Seq<u8>) -> SignatureCheck {
    if !sec1_key_valid(key) {
        SignatureCheck::KeyMalformed
    } else if !signature_decodes(signature) {
        SignatureCheck::SignatureMalformed
    } else if ecdsa_accepts(key, message, signature) {
        SignatureCheck::Accepted
    } else {
        SignatureCheck::Rejected
    }
}

/// Relies on k256: `ecdsa::VerifyingKey::from_sec1_bytes` to decode the
/// key, `ecdsa::Signature::from_slice` to decode the signature, and
/// `signature::Verifier::verify` on the decoded key for the verification
/// equation over the message.
#[verifier::external_body]
pub(crate) fn check_signature(key: &[u8], message: &[u8], signature: &[u8]) -> (verdict: SignatureCheck)
    ensures
        (verdict == SignatureCheck::KeyMalformed) == !sec1_key_valid(key@),
        (verdict == SignatureCheck::SignatureMalformed) == (sec1_key_valid(key@) && !signature_decodes(signature@)),
        (verdict == SignatureCheck::Accepted) == (sec1_key_valid(key@) && signature_decodes(signature@)
            && ecdsa_accepts(key@, message@, signature@)),
{
    let verifying_key = match k256::ecdsa::VerifyingKey::from_sec1_bytes(key) {
        Ok(k) => k,
        Err(_) => return SignatureCheck::KeyMalformed,
    };
    let signature = match k256::ecdsa::Signature::from_slice(signature) {
        Ok(s) => s,
        Err(_) => return SignatureCheck::SignatureMalformed,
    };
    match verifying_key.verify(message, &signature) {
        Ok(()) => SignatureCheck::Accepted,
        Err(_) => SignatureCheck::Rejected,
    }
}

} // verus!
