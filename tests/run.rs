use k256::ecdsa::signature::Signer;
use k256::ecdsa::{Signature, SigningKey};
use merkle_attest::attest::{
    attest_computed_root, check_shape, commit_on_verdict, verify_attestation, Attestation,
    AttestationInput, ShapeError, VerifyError,
};
use merkle_attest::merkle::compute_merkle_root;
use merkle_attest::signature::SignatureCheck;
use rand_core::OsRng;
use sha2::{Digest, Sha384};

fn example_leaf() -> Vec<u8> {
    Sha384::digest(b"example leaf data").to_vec()
}

fn example_path() -> Vec<Vec<u8>> {
    let mut merkle_path: Vec<Vec<u8>> = vec![vec![0; 48]; 32];
    for i in 0..32 {
        merkle_path[i][47] = i as u8;
    }
    merkle_path
}

fn public_key_of(signing_key: &SigningKey) -> Vec<u8> {
    signing_key.verifying_key().to_encoded_point(true).as_bytes().to_vec()
}

fn signed_input(signing_key: &SigningKey, root: &[u8]) -> AttestationInput {
    let signature: Signature = signing_key.sign(root);
    AttestationInput {
        public_key: public_key_of(signing_key),
        claimed_root: root.to_vec(),
        signature: signature.to_bytes().to_vec(),
    }
}

#[test]
fn test_verify() {
    let leaf_hash = example_leaf();
    let merkle_path = example_path();
    let computed_root = compute_merkle_root(&leaf_hash, &merkle_path);

    let signing_key = SigningKey::random(&mut OsRng);
    let input = signed_input(&signing_key, &computed_root);

    let attestation = verify_attestation(&input, &leaf_hash, &merkle_path).unwrap();
    assert_eq!(attestation.public_key, public_key_of(&signing_key));
    assert_eq!(attestation.root, computed_root);
}

#[test]
fn altered_path_entry_is_root_mismatch() {
    let leaf = example_leaf();
    let path = example_path();
    let root = compute_merkle_root(&leaf, &path);
    let signing_key = SigningKey::random(&mut OsRng);
    let input = signed_input(&signing_key, &root);
    for level in [0usize, 7, 31] {
        let mut altered = path.clone();
        altered[level][0] = 0xff;
        assert_eq!(
            verify_attestation(&input, &leaf, &altered),
            Err(VerifyError::RootMismatch)
        );
    }
}

#[test]
fn empty_path_attests_leaf_hash() {
    let leaf = b"a single leaf".to_vec();
    let root = Sha384::digest(&leaf).to_vec();
    let signing_key = SigningKey::random(&mut OsRng);
    let input = signed_input(&signing_key, &root);
    let attestation = verify_attestation(&input, &leaf, &Vec::new()).unwrap();
    assert_eq!(attestation.root, root);
}

#[test]
fn signature_by_other_key_is_invalid() {
    let leaf = example_leaf();
    let path = example_path();
    let root = compute_merkle_root(&leaf, &path);
    let signer = SigningKey::random(&mut OsRng);
    let other = SigningKey::random(&mut OsRng);
    let mut input = signed_input(&signer, &root);
    input.public_key = public_key_of(&other);
    assert_eq!(
        verify_attestation(&input, &leaf, &path),
        Err(VerifyError::SignatureInvalid)
    );
}

#[test]
fn claimed_root_one_bit_off_is_root_mismatch() {
    let leaf = example_leaf();
    let path = example_path();
    let root = compute_merkle_root(&leaf, &path);
    let signing_key = SigningKey::random(&mut OsRng);
    let mut claimed = root.clone();
    claimed[10] ^= 0x04;
    let input = signed_input(&signing_key, &claimed);
    assert_eq!(
        verify_attestation(&input, &leaf, &path),
        Err(VerifyError::RootMismatch)
    );
}

#[test]
fn repeated_runs_give_same_attestation() {
    let leaf = example_leaf();
    let path = example_path();
    let root = compute_merkle_root(&leaf, &path);
    let signing_key = SigningKey::random(&mut OsRng);
    let input = signed_input(&signing_key, &root);
    let first = verify_attestation(&input, &leaf, &path);
    assert!(first.is_ok());
    for _ in 0..3 {
        assert_eq!(verify_attestation(&input, &leaf, &path), first);
    }
}

#[test]
fn uncompressed_key_is_accepted_and_committed_as_given() {
    let leaf = example_leaf();
    let path = example_path();
    let root = compute_merkle_root(&leaf, &path);
    let signing_key = SigningKey::random(&mut OsRng);
    let mut input = signed_input(&signing_key, &root);
    input.public_key = signing_key.verifying_key().to_encoded_point(false).as_bytes().to_vec();
    let attestation = verify_attestation(&input, &leaf, &path).unwrap();
    assert_eq!(attestation.public_key.len(), 65);
    assert_eq!(attestation.public_key, input.public_key);
}

#[test]
fn short_claimed_root_is_shape_error() {
    let leaf = example_leaf();
    let path = example_path();
    let root = compute_merkle_root(&leaf, &path);
    let signing_key = SigningKey::random(&mut OsRng);
    let input = signed_input(&signing_key, &root[..47]);
    assert_eq!(
        verify_attestation(&input, &leaf, &path),
        Err(VerifyError::InputShape(ShapeError::RootWidth))
    );
}

#[test]
fn wide_sibling_is_shape_error() {
    let leaf = example_leaf();
    let mut path = example_path();
    let root = compute_merkle_root(&leaf, &path);
    let signing_key = SigningKey::random(&mut OsRng);
    let input = signed_input(&signing_key, &root);
    path[3].push(0);
    assert_eq!(
        check_shape(&input.claimed_root, &path),
        Err(VerifyError::InputShape(ShapeError::SiblingWidth))
    );
    assert_eq!(
        verify_attestation(&input, &leaf, &path),
        Err(VerifyError::InputShape(ShapeError::SiblingWidth))
    );
}

#[test]
fn invalid_key_encoding_is_shape_error() {
    let leaf = example_leaf();
    let path = example_path();
    let root = compute_merkle_root(&leaf, &path);
    let signing_key = SigningKey::random(&mut OsRng);
    let mut input = signed_input(&signing_key, &root);
    input.public_key = vec![0x02; 10];
    assert_eq!(
        verify_attestation(&input, &leaf, &path),
        Err(VerifyError::InputShape(ShapeError::KeyEncoding))
    );
}

#[test]
fn invalid_signature_encoding_is_shape_error() {
    let leaf = example_leaf();
    let path = example_path();
    let root = compute_merkle_root(&leaf, &path);
    let signing_key = SigningKey::random(&mut OsRng);
    let mut input = signed_input(&signing_key, &root);
    input.signature = vec![0u8; 64];
    assert_eq!(
        verify_attestation(&input, &leaf, &path),
        Err(VerifyError::InputShape(ShapeError::SignatureEncoding))
    );
    input.signature = vec![1u8; 63];
    assert_eq!(
        verify_attestation(&input, &leaf, &path),
        Err(VerifyError::InputShape(ShapeError::SignatureEncoding))
    );
}

#[test]
fn staged_run_matches_whole_run() {
    let leaf = example_leaf();
    let path = example_path();
    let root = compute_merkle_root(&leaf, &path);
    let signing_key = SigningKey::random(&mut OsRng);
    let input = signed_input(&signing_key, &root);
    assert_eq!(check_shape(&input.claimed_root, &path), Ok(()));
    let staged = attest_computed_root(&input, compute_merkle_root(&leaf, &path));
    assert_eq!(staged, verify_attestation(&input, &leaf, &path));
}

#[test]
fn verdicts_map_to_results() {
    let key = vec![2u8, 3];
    let root = vec![7u8; 48];
    assert_eq!(
        commit_on_verdict(&key, root.clone(), SignatureCheck::Accepted),
        Ok(Attestation { public_key: key.clone(), root: root.clone() })
    );
    assert_eq!(
        commit_on_verdict(&key, root.clone(), SignatureCheck::Rejected),
        Err(VerifyError::SignatureInvalid)
    );
    assert_eq!(
        commit_on_verdict(&key, root.clone(), SignatureCheck::KeyMalformed),
        Err(VerifyError::InputShape(ShapeError::KeyEncoding))
    );
    assert_eq!(
        commit_on_verdict(&key, root, SignatureCheck::SignatureMalformed),
        Err(VerifyError::InputShape(ShapeError::SignatureEncoding))
    );
}
