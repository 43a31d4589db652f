use prover_service::artifact::{encode_artifact, ProofArtifact};
use prover_service::binding::{derive_seed, hash_floats, pack_artifact, unpack_artifact, verify_binding};
use prover_service::error::ProverError;
use sha2::{Digest, Sha256};

fn bits(values: &[f32]) -> Vec<u32> {
    values.iter().map(|v| v.to_bits()).collect()
}

fn sha_hex(data: &[u8]) -> String {
    hex::encode(Sha256::digest(data))
}

fn sample() -> ProofArtifact {
    let ih = hash_floats(&bits(&[1.0, 2.0, 3.0]));
    let oh = hash_floats(&bits(&[0.25, 0.75]));
    pack_artifact(
        "0x1111111111111111111111111111111111111111111111111111111111111111",
        &ih,
        &oh,
        bits(&[0.25, 0.75]),
        1_700_000_000,
    )
}

#[test]
fn empty_sequence_hashes_to_sha256_of_nothing() {
    assert_eq!(
        hash_floats(&[]),
        "0xe3b0c44298fc1c149afbf4c8996fb92427ae41e4649b934ca495991b7852b855"
    );
}

#[test]
fn hash_floats_feeds_little_endian_bytes_in_order() {
    let values = [1.0f32, 2.0, 3.0];
    let mut bytes = Vec::new();
    for v in values {
        bytes.extend_from_slice(&v.to_le_bytes());
    }
    assert_eq!(hash_floats(&bits(&values)), format!("0x{}", sha_hex(&bytes)));
}

#[test]
fn hash_floats_is_order_sensitive() {
    let a = hash_floats(&bits(&[1.0, 2.0, 3.0]));
    let b = hash_floats(&bits(&[3.0, 2.0, 1.0]));
    assert_ne!(a, b);
}

#[test]
fn hash_floats_is_deterministic() {
    let v = bits(&[-0.5, 1e10, 7.25]);
    assert_eq!(hash_floats(&v), hash_floats(&v));
}

#[test]
fn seed_hashes_text_of_the_triple() {
    let seed = derive_seed("a", "b", "c");
    assert_eq!(
        hex::encode(&seed),
        "ba7816bf8f01cfea414140de5dae2223b00361a396177a9cb410ff61f20015ad"
    );
}

#[test]
fn pack_fills_fragments_from_seed() {
    let a = pack_artifact("0xaa", "0xbb", "0xcc", vec![], 5);
    let seed = derive_seed("0xaa", "0xbb", "0xcc");
    assert_eq!(a.version, 1);
    assert_eq!(a.prover_identifier, "jolt-atlas-mock-v1");
    assert_eq!(a.binding_randomness, hex::encode(&seed[0..16]));
    assert_eq!(a.binding_check_1, hex::encode(&seed[16..32]));
    let mut tagged = seed.clone();
    tagged.extend_from_slice(b"lookup");
    assert_eq!(a.binding_check_2, sha_hex(&tagged));
    assert_eq!(a.binding_randomness.len(), 32);
    assert_eq!(a.binding_check_2.len(), 64);
}

#[test]
fn unpack_of_packed_round_trips() {
    let a = sample();
    let b = unpack_artifact(&encode_artifact(&a)).ok().unwrap();
    assert_eq!(b.version, a.version);
    assert_eq!(b.prover_identifier, a.prover_identifier);
    assert_eq!(b.model_commitment, a.model_commitment);
    assert_eq!(b.input_hash, a.input_hash);
    assert_eq!(b.output_hash, a.output_hash);
    assert_eq!(b.outputs, a.outputs);
    assert_eq!(b.timestamp, 1_700_000_000);
    assert_eq!(b.binding_randomness, a.binding_randomness);
    assert_eq!(b.binding_check_1, a.binding_check_1);
    assert_eq!(b.binding_check_2, a.binding_check_2);
}

#[test]
fn unpack_rejects_truncated_and_trailing_bytes() {
    let bytes = encode_artifact(&sample());
    assert!(matches!(
        unpack_artifact(&bytes[..bytes.len() - 1]),
        Err(ProverError::MalformedArtifactError)
    ));
    let mut longer = bytes.clone();
    longer.push(0);
    assert!(matches!(unpack_artifact(&longer), Err(ProverError::MalformedArtifactError)));
    assert!(matches!(unpack_artifact(&[]), Err(ProverError::MalformedArtifactError)));
}

#[test]
fn packed_artifact_verifies_against_its_triple() {
    let a = sample();
    let (c, ih, oh) = (a.model_commitment.clone(), a.input_hash.clone(), a.output_hash.clone());
    assert!(verify_binding(&a, &c, &ih, &oh));
}

#[test]
fn tampered_fields_are_rejected() {
    let a = sample();
    let (c, ih, oh) = (a.model_commitment.clone(), a.input_hash.clone(), a.output_hash.clone());
    let other = "0x2222222222222222222222222222222222222222222222222222222222222222".to_string();

    let mut t = sample();
    t.model_commitment = other.clone();
    assert!(!verify_binding(&t, &c, &ih, &oh));
    let mut t = sample();
    t.input_hash = other.clone();
    assert!(!verify_binding(&t, &c, &ih, &oh));
    let mut t = sample();
    t.output_hash = other.clone();
    assert!(!verify_binding(&t, &c, &ih, &oh));

    assert!(!verify_binding(&a, &other, &ih, &oh));
    assert!(!verify_binding(&a, &c, &other, &oh));
    assert!(!verify_binding(&a, &c, &ih, &other));
}

#[test]
fn tampered_fragments_are_rejected() {
    let a = sample();
    let (c, ih, oh) = (a.model_commitment.clone(), a.input_hash.clone(), a.output_hash.clone());
    let mut t = sample();
    t.binding_randomness = "00".repeat(16);
    assert!(!verify_binding(&t, &c, &ih, &oh));
    let mut t = sample();
    t.binding_check_1 = "00".repeat(16);
    assert!(!verify_binding(&t, &c, &ih, &oh));
    let mut t = sample();
    t.binding_check_2 = "00".repeat(32);
    assert!(!verify_binding(&t, &c, &ih, &oh));
    let mut t = sample();
    t.prover_identifier = "other-prover".to_string();
    assert!(!verify_binding(&t, &c, &ih, &oh));
}

#[test]
fn other_versions_are_rejected() {
    let a = sample();
    let (c, ih, oh) = (a.model_commitment.clone(), a.input_hash.clone(), a.output_hash.clone());
    for v in [0u8, 2, 255] {
        let mut t = sample();
        t.version = v;
        assert!(!verify_binding(&t, &c, &ih, &oh));
        let back = unpack_artifact(&encode_artifact(&t)).ok().unwrap();
        assert!(!verify_binding(&back, &c, &ih, &oh));
    }
}
