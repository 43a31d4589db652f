use prover_service::artifact::encode_artifact;
use prover_service::binding::pack_artifact;
use prover_service::verification::{
    compute_input_hash, compute_output_hash, verify_artifact_hashes, verify_commitments,
    verify_proof_structure,
};

fn bits(values: &[f32]) -> Vec<u32> {
    values.iter().map(|v| v.to_bits()).collect()
}

#[test]
fn test_input_hash_deterministic() {
    let inputs = bits(&[1.0, 2.0, 3.0]);
    let hash1 = compute_input_hash(&inputs);
    let hash2 = compute_input_hash(&inputs);
    assert_eq!(hash1, hash2);
}

#[test]
fn test_different_inputs_different_hash() {
    let inputs1 = bits(&[1.0, 2.0, 3.0]);
    let inputs2 = bits(&[1.0, 2.0, 4.0]);
    let hash1 = compute_input_hash(&inputs1);
    let hash2 = compute_input_hash(&inputs2);
    assert_ne!(hash1, hash2);
}

#[test]
fn test_verify_commitments() {
    assert!(verify_commitments("0xabc", "0x123", "0x456", "0xabc", "0x123", "0x456"));

    assert!(!verify_commitments("0xabc", "0x123", "0x456", "0xdef", "0x123", "0x456"));
}

#[test]
fn verify_commitments_checks_each_hash() {
    assert!(!verify_commitments("0xabc", "0x123", "0x456", "0xabc", "0x124", "0x456"));
    assert!(!verify_commitments("0xabc", "0x123", "0x456", "0xabc", "0x123", "0x457"));
}

#[test]
fn output_hash_equals_input_hash_of_same_values() {
    let values = bits(&[0.25, -1.5]);
    assert_eq!(compute_output_hash(&values), compute_input_hash(&values));
}

#[test]
fn structure_of_packed_artifact() {
    let outputs = bits(&[0.5, 0.5]);
    let a = pack_artifact("0xc", "0xi", "0xo", outputs.clone(), 42);
    let bytes = encode_artifact(&a);
    let m = verify_proof_structure(&bytes).ok().unwrap();
    assert_eq!(m.version, 1);
    assert_eq!(m.prover, "jolt-atlas-mock-v1");
    assert_eq!(m.model_commitment, "0xc");
    assert_eq!(m.input_hash, "0xi");
    assert_eq!(m.output_hash, "0xo");
    assert_eq!(m.outputs, outputs);
    assert_eq!(m.timestamp, 42);
}

#[test]
fn structure_rejects_garbage() {
    assert!(verify_proof_structure(&[]).is_err());
    assert!(verify_proof_structure(&[1, 2, 3]).is_err());
}

#[test]
fn raw_hashes_checked_against_artifact() {
    let inputs = bits(&[1.0, 2.0, 3.0]);
    let outputs = bits(&[0.1, 0.9]);
    let ih = compute_input_hash(&inputs);
    let oh = compute_output_hash(&outputs);
    let a = pack_artifact("0xc", &ih, &oh, outputs.clone(), 7);
    let bytes = encode_artifact(&a);
    assert_eq!(verify_artifact_hashes(&bytes, &inputs, &outputs), Ok(true));
    let other = bits(&[1.0, 2.0, 3.1]);
    assert_eq!(verify_artifact_hashes(&bytes, &other, &outputs), Ok(false));
    assert_eq!(verify_artifact_hashes(&bytes, &inputs, &other), Ok(false));
    assert!(verify_artifact_hashes(&bytes[1..], &inputs, &outputs).is_err());
}
