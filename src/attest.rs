//! A whole run: shape checks, root recomputation, root comparison,
//! signature check, and the attestation that leaves the run on success.
//!
//! `Start -> ComputeRoot -> CompareRoot -> VerifySignature -> Committed`,
//! with any failed step ending the run with an error and no attestation.

use vstd::prelude::*;

use crate::digest::HASH_LEN;
use crate::merkle::{compute_merkle_root, merkle_root, path_view, siblings_well_formed};
use crate::signature::{check_signature, signature_verdict, SignatureCheck};

verus! {

/// An input of the wrong shape.
#[derive(Clone, Copy, Debug, PartialEq, Eq, Structural)]
pub enum ShapeError {
    /// The claimed root is not a hash value of the fixed width.
    RootWidth,
    /// A sibling of the path is not a hash value of the fixed width.
    SiblingWidth,
    /// The public key does not decode as a point on the curve.
    KeyEncoding,
    /// The signature does not decode.
    SignatureEncoding,
}

/// Why a run produced no attestation.
#[derive(Clone, Copy, Debug, PartialEq, Eq, Structural)]
pub enum VerifyError {
    /// Malformed or mis-sized input.
    InputShape(ShapeError),
    /// The recomputed root differs from the claimed root.
    RootMismatch,
    /// The signature fails the verification equation.
    SignatureInvalid,
}

/// The attested bundle of a run: who signed, what root they claim, and the
/// signature over that root.
#[derive(Debug, PartialEq, Eq)]
pub struct AttestationInput {
    /// SEC1 encoding of the signer's secp256k1 public key.
    pub public_key: Vec<u8>,
    /// The root the caller asserts the leaf belongs to.
    pub claimed_root: Vec<u8>,
    /// ECDSA signature over the root: `r || s`, 64 bytes.
    pub signature: Vec<u8>,
}

/// The only output of a successful run: the public key as supplied and the
/// recomputed root.
#[derive(Debug, PartialEq, Eq)]
pub struct Attestation {
    pub public_key: Vec<u8>,
    pub root: Vec<u8>,
}

/// An attestation as the pair of its byte contents (public key, root).
pub open spec fn attestation_view(
    result: Result<Attestation, VerifyError>,
) -> Result<(Seq<u8>, Seq<u8>), VerifyError> {
    match result {
        Ok(a) => Ok((a.public_key@, a.root@)),
        Err(e) => Err(e),
    }
}

/// The shape checks made before any verification: the claimed root first,
/// then the siblings.
pub open spec fn shape_result(claimed_root: Seq<u8>, path: Seq<Seq<u8>>) -> Result<(), VerifyError> {
    if claimed_root.len() != HASH_LEN {
        Err(VerifyError::InputShape(ShapeError::RootWidth))
    } else if !siblings_well_formed(path) {
        Err(VerifyError::InputShape(ShapeError::SiblingWidth))
    } else {
        Ok(())
    }
}

/// What a signature verdict makes of a run whose root matched: commit the
/// key and the root on acceptance, otherwise the matching error.
pub open spec fn verdict_result(
    public_key: Seq<u8>,
    root: Seq<u8>,
    verdict: SignatureCheck,
) -> Result<(Seq<u8>, Seq<u8>), VerifyError> {
    match verdict {
        SignatureCheck::KeyMalformed => Err(VerifyError::InputShape(ShapeError::KeyEncoding)),
        SignatureCheck::SignatureMalformed => Err(
            VerifyError::InputShape(ShapeError::SignatureEncoding),
        ),
        SignatureCheck::Rejected => Err(VerifyError::SignatureInvalid),
        SignatureCheck::Accepted => Ok((public_key, root)),
    }
}

/// The outcome of a run once the root has been recomputed: a mismatch with
/// the claimed root ends it; otherwise the signature over the recomputed
/// root decides.
pub open spec fn computed_root_result(
    public_key: Seq<u8>,
    claimed_root: Seq<u8>,
    signature: Seq<u8>,
    computed_root: Seq<u8>,
) -> Result<(Seq<u8>, Seq<u8>), VerifyError> {
    if computed_root != claimed_root {
        Err(VerifyError::RootMismatch)
    } else {
        verdict_result(
            public_key,
            computed_root,
            signature_verdict(public_key, computed_root, signature),
        )
    }
}

/// The outcome of a whole run on the given inputs.
pub open spec fn run_result(
    public_key: Seq<u8>,
    claimed_root: Seq<u8>,
    signature: Seq<u8>,
    leaf: Seq<u8>,
    path: Seq<Seq<u8>>,
) -> Result<(Seq<u8>, Seq<u8>), VerifyError> {
    match shape_result(claimed_root, path) {
        Err(e) => Err(e),
        Ok(()) => computed_root_result(public_key, claimed_root, signature, merkle_root(leaf, path)),
    }
}

/// The shape checks on a claimed root and a sibling path.
pub fn check_shape(claimed_root: &Vec<u8>, merkle_path: &Vec<Vec<u8>>) -> (result: Result<(), VerifyError>)
    ensures
        result == shape_result(claimed_root@, path_view(merkle_path@)),
{
    if claimed_root.len() != HASH_LEN {
        return Err(VerifyError::InputShape(ShapeError::RootWidth));
    }
    let ghost path = path_view(merkle_path@);
    let mut i: usize = 0;
    while i < merkle_path.len()
        invariant
            i <= merkle_path@.len(),
            path == path_view(merkle_path@),
            path.len() == merkle_path@.len(),
            claimed_root@.len() == HASH_LEN,
            forall|j: int| 0 <= j < i ==> (#[trigger] path[j]).len() == HASH_LEN,
        decreases merkle_path.len() - i,
    {
        assert(path[i as int] == merkle_path@[i as int]@);
        if merkle_path[i].len() != HASH_LEN {
            return Err(VerifyError::InputShape(ShapeError::SiblingWidth));
        }
        i = i + 1;
    }
    Ok(())
}

/// Turns a signature verdict on a matching root into the run's result.
pub fn commit_on_verdict(public_key: &Vec<u8>, root: Vec<u8>, verdict: SignatureCheck) -> (result:
    Result<Attestation, VerifyError>)
    ensures
        attestation_view(result) == verdict_result(public_key@, root@, verdict),
{
    match verdict {
        SignatureCheck::KeyMalformed => Err(VerifyError::InputShape(ShapeError::KeyEncoding)),
        SignatureCheck::SignatureMalformed => Err(
            VerifyError::InputShape(ShapeError::SignatureEncoding),
        ),
        SignatureCheck::Rejected => Err(VerifyError::SignatureInvalid),
        SignatureCheck::Accepted => Ok(Attestation { public_key: public_key.clone(), root }),
    }
}

/// Byte-for-byte equality.
fn bytes_equal(a: &[u8], b: &[u8]) -> (equal: bool)
    ensures
        equal == (a@ == b@),
{
    if a.len() != b.len() {
        return false;
    }
    let mut i: usize = 0;
    while i < a.len()
        invariant
            i <= a@.len(),
            a@.len() == b@.len(),
            forall|j: int| 0 <= j < i ==> a@[j] == b@[j],
        decreases a.len() - i,
    {
        if a[i] != b[i] {
            return false;
        }
        i = i + 1;
    }
    assert(a@ =~= b@);
    true
}

/// The steps of a run after the root has been recomputed: compare it with
/// the claimed root, then check the signature over it.
pub fn attest_computed_root(input: &AttestationInput, computed_root: Vec<u8>) -> (result: Result<
    Attestation,
    VerifyError,
>)
    ensures
        attestation_view(result) == computed_root_result(
            input.public_key@,
            input.claimed_root@,
            input.signature@,
            computed_root@,
        ),
{
    if !bytes_equal(computed_root.as_slice(), input.claimed_root.as_slice()) {
        return Err(VerifyError::RootMismatch);
    }
    let verdict = check_signature(
        input.public_key.as_slice(),
        computed_root.as_slice(),
        input.signature.as_slice(),
    );
    commit_on_verdict(&input.public_key, computed_root, verdict)
}

/// A whole run: checks the shape of the inputs, recomputes the root from
/// the leaf and the path, requires it to equal the claimed root, and checks
/// the signature over it. On success the result holds the public key as
/// supplied and the recomputed root; on any failure, only the error.
pub fn verify_attestation(input: &AttestationInput, leaf: &Vec<u8>, merkle_path: &Vec<Vec<u8>>) -> (result:
    Result<Attestation, VerifyError>)
    ensures
        attestation_view(result) == run_result(
            input.public_key@,
            input.claimed_root@,
            input.signature@,
            leaf@,
            path_view(merkle_path@),
        ),
{
    match check_shape(&input.claimed_root, merkle_path) {
        Err(e) => Err(e),
        Ok(()) => {
            let root = compute_merkle_root(leaf, merkle_path);
            attest_computed_root(input, root)
        },
    }
}

/// A run keeps no state: the same inputs, run any number of times, give
/// the same result, and so the same attestation.
pub proof fn lemma_run_idempotent(
    public_key: Seq<u8>,
    claimed_root: Seq<u8>,
    signature: Seq<u8>,
    leaf: Seq<u8>,
    path: Seq<Seq<u8>>,
    first: Result<Attestation, VerifyError>,
    second: Result<Attestation, VerifyError>,
)
    requires
        attestation_view(first) == run_result(public_key, claimed_root, signature, leaf, path),
        attestation_view(second) == run_result(public_key, claimed_root, signature, leaf, path),
    ensures
        attestation_view(first) == attestation_view(second),
{
}

} // verus!
