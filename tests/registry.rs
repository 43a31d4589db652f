use base64::Engine;
use prover_service::binding::hash_floats;
use prover_service::error::ProverError;
use prover_service::prover::JoltAtlasProver;
use prover_service::types::{ProveRequest, RegisterModelRequest, VerifyRequest};
use sha2::{Digest, Sha256};

fn bits(values: &[f32]) -> Vec<u32> {
    values.iter().map(|v| v.to_bits()).collect()
}

fn b64(data: &[u8]) -> String {
    base64::engine::general_purpose::STANDARD.encode(data)
}

fn register_request(name: &str, payload: String) -> RegisterModelRequest {
    RegisterModelRequest { name: name.to_string(), model_bytes: payload, description: None }
}

fn prove_request(model_id: &str, inputs: &[f32]) -> ProveRequest {
    ProveRequest {
        model_id: model_id.to_string(),
        inputs: bits(inputs),
        expected_output: None,
        input_names: None,
    }
}

#[test]
fn register_commits_to_sha256_of_bytes() {
    let mut p = JoltAtlasProver::new("models".to_string(), false);
    let info = p.register_model(&register_request("m", b64(&[0x00, 0x01, 0x02]))).ok().unwrap();
    let expected = format!("0x{}", hex::encode(Sha256::digest([0x00u8, 0x01, 0x02])));
    assert_eq!(info.commitment, expected);
    assert_eq!(info.name, "m");
    assert_eq!(info.path, format!("models/{}.onnx", info.id));
    assert_eq!(p.get_model_commitment(&info.id), Some(expected));
}

#[test]
fn registering_same_bytes_twice_gives_new_id_same_commitment() {
    let mut p = JoltAtlasProver::new("models".to_string(), false);
    let a = p.register_model(&register_request("a", b64(b"weights"))).ok().unwrap();
    let b = p.register_model(&register_request("b", b64(b"weights"))).ok().unwrap();
    assert_ne!(a.id, b.id);
    assert_eq!(a.commitment, b.commitment);
    assert_eq!(p.get_model_commitment(&a.id), Some(a.commitment.clone()));
    assert_eq!(p.get_model_commitment(&b.id), Some(b.commitment.clone()));
}

#[test]
fn invalid_base64_is_an_encoding_error() {
    let mut p = JoltAtlasProver::new("models".to_string(), false);
    let r = p.register_model(&register_request("m", "not base64!!".to_string()));
    assert!(matches!(r, Err(ProverError::EncodingError)));
}

#[test]
fn empty_model_is_invalid() {
    let mut p = JoltAtlasProver::new("models".to_string(), false);
    let r = p.register_model(&register_request("m", String::new()));
    assert!(matches!(r, Err(ProverError::InvalidModelError)));
}

#[test]
fn unknown_model_has_no_commitment() {
    let p = JoltAtlasProver::new("models".to_string(), false);
    assert_eq!(p.get_model_commitment("nope"), None);
    assert_eq!(p.get_model_path("nope"), None);
}

#[test]
fn prepare_then_insert_registers() {
    let mut p = JoltAtlasProver::new("store".to_string(), false);
    let prepared = p.prepare_model(&register_request("m", b64(&[9, 9]))).ok().unwrap();
    assert_eq!(prepared.bytes, vec![9, 9]);
    let id = prepared.info.id.clone();
    assert_eq!(p.get_model_commitment(&id), None);
    p.insert_model(prepared.info);
    assert_eq!(p.get_model_path(&id), Some(format!("store/{}.onnx", id)));
}

#[test]
fn generate_and_verify_scenario() {
    let mut p = JoltAtlasProver::new("models".to_string(), false);
    let info = p.register_model(&register_request("m", b64(&[0x00, 0x01, 0x02]))).ok().unwrap();
    let outputs = bits(&[0.2, 0.8]);
    let result = p.generate_proof(&prove_request(&info.id, &[1.0, 2.0, 3.0]), &outputs, 100).ok().unwrap();
    assert_eq!(result.input_hash, hash_floats(&bits(&[1.0, 2.0, 3.0])));
    assert_eq!(result.output_hash, hash_floats(&outputs));
    assert_eq!(result.model_commitment, info.commitment);
    assert_eq!(result.public_inputs.output, outputs);
    assert_eq!(result.public_inputs.timestamp, 100);

    let good = VerifyRequest {
        proof: result.proof.clone(),
        model_commitment: info.commitment.clone(),
        input_hash: result.input_hash.clone(),
        output_hash: result.output_hash.clone(),
        public_inputs: None,
    };
    assert_eq!(p.verify_proof(&good), Ok(true));

    let bad = VerifyRequest {
        input_hash: hash_floats(&bits(&[1.0, 2.0, 3.1])),
        ..good
    };
    assert_eq!(p.verify_proof(&bad), Ok(false));
}

#[test]
fn generate_for_unknown_model_fails() {
    let p = JoltAtlasProver::new("models".to_string(), false);
    let r = p.generate_proof(&prove_request("missing", &[1.0]), &[], 0);
    assert!(matches!(r, Err(ProverError::ModelNotFound)));
}

#[test]
fn real_engine_is_not_integrated() {
    let mut p = JoltAtlasProver::new("models".to_string(), true);
    let info = p.register_model(&register_request("m", b64(&[1]))).ok().unwrap();
    let r = p.generate_proof(&prove_request(&info.id, &[1.0]), &[], 0);
    assert!(matches!(r, Err(ProverError::NotIntegratedError)));
    let v = VerifyRequest {
        proof: String::new(),
        model_commitment: String::new(),
        input_hash: String::new(),
        output_hash: String::new(),
        public_inputs: None,
    };
    assert_eq!(p.verify_proof(&v), Err(ProverError::NotIntegratedError));
}

#[test]
fn verify_distinguishes_bad_encoding_and_bad_artifact() {
    let p = JoltAtlasProver::new("models".to_string(), false);
    let mut v = VerifyRequest {
        proof: "%%%".to_string(),
        model_commitment: String::new(),
        input_hash: String::new(),
        output_hash: String::new(),
        public_inputs: None,
    };
    assert_eq!(p.verify_proof(&v), Err(ProverError::EncodingError));
    v.proof = b64(b"{\"version\":1}");
    assert_eq!(p.verify_proof(&v), Err(ProverError::MalformedArtifactError));
}

#[test]
fn error_codes_are_stable() {
    assert_eq!(ProverError::EncodingError.code(), "ENCODING_ERROR");
    assert_eq!(ProverError::ModelNotFound.code(), "MODEL_NOT_FOUND");
    assert_eq!(ProverError::MalformedArtifactError.code(), "MALFORMED_ARTIFACT");
}

#[test]
fn proof_is_base64_of_the_artifact() {
    let mut p = JoltAtlasProver::new("models".to_string(), false);
    let info = p.register_model(&register_request("m", b64(&[7, 7, 7]))).ok().unwrap();
    let outputs = bits(&[0.5]);
    let result = p.generate_proof(&prove_request(&info.id, &[4.0]), &outputs, 9).ok().unwrap();
    let bytes = base64::engine::general_purpose::STANDARD.decode(&result.proof).unwrap();
    let a = prover_service::binding::unpack_artifact(&bytes).ok().unwrap();
    assert_eq!(a.model_commitment, info.commitment);
    assert_eq!(a.input_hash, result.input_hash);
    assert_eq!(a.output_hash, result.output_hash);
    assert_eq!(a.outputs, outputs);
    assert_eq!(a.timestamp, 9);
}
