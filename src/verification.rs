//! Verification helpers that need no service instance: comparison of claimed
//! commitments, the hashes of raw value vectors, and structural reading of
//! artifact bytes.

use vstd::prelude::*;
use vstd::string::*;

use crate::artifact::{decode_artifact, parse_artifact};
use crate::binding::{hash_floats, words_digest};

verus! {

/// Whether a commitment and two hashes equal the expected ones.
pub fn verify_commitments(
    model_commitment: &str,
    input_hash: &str,
    output_hash: &str,
    expected_model_commitment: &str,
    expected_input_hash: &str,
    expected_output_hash: &str,
) -> (r: bool)
    ensures
        r == (model_commitment@ == expected_model_commitment@ && input_hash@
            == expected_input_hash@ && output_hash@ == expected_output_hash@),
{
    model_commitment.to_owned() == expected_model_commitment.to_owned()
        && input_hash.to_owned() == expected_input_hash.to_owned()
        && output_hash.to_owned() == expected_output_hash.to_owned()
}

/// The hash of an input vector, given as bit patterns of single-precision values.
pub fn compute_input_hash(inputs: &[u32]) -> (r: String)
    ensures
        r@ == words_digest(inputs@),
{
    hash_floats(inputs)
}

/// The hash of an output vector, given as bit patterns of single-precision values.
pub fn compute_output_hash(outputs: &[u32]) -> (r: String)
    ensures
        r@ == words_digest(outputs@),
{
    hash_floats(outputs)
}

/// The public fields of an artifact.
pub struct ProofMetadata {
    pub version: u8,
    pub prover: String,
    pub model_commitment: String,
    pub input_hash: String,
    pub output_hash: String,
    /// Output values as bit patterns of single-precision values.
    pub outputs: Vec<u32>,
    pub timestamp: u64,
}

/// Reads the public fields of an artifact from its bytes, without checking
/// any binding; an error when the bytes are not an artifact.
pub fn verify_proof_structure(proof_bytes: &[u8]) -> (r: Result<ProofMetadata, String>)
    ensures
        match r {
            Ok(m) => match parse_artifact(proof_bytes@) {
                Some(a) => {
                    &&& m.version == a.version
                    &&& m.prover@ == a.prover_identifier
                    &&& m.model_commitment@ == a.model_commitment
                    &&& m.input_hash@ == a.input_hash
                    &&& m.output_hash@ == a.output_hash
                    &&& m.outputs@ == a.outputs
                    &&& m.timestamp == a.timestamp
                },
                None => false,
            },
            Err(_) => parse_artifact(proof_bytes@) is None,
        },
{
    match decode_artifact(proof_bytes) {
        Some(a) => Ok(
            ProofMetadata {
                version: a.version,
                prover: a.prover_identifier,
                model_commitment: a.model_commitment,
                input_hash: a.input_hash,
                output_hash: a.output_hash,
                outputs: a.outputs,
                timestamp: a.timestamp,
            },
        ),
        None => Err(String::from_str("Invalid proof format")),
    }
}

/// Checks the hashes an artifact declares against raw input and output
/// vectors: `Ok(true)` exactly when both recomputed hashes equal the declared
/// ones, an error when the bytes are not an artifact.
pub fn verify_artifact_hashes(proof_bytes: &[u8], inputs: &[u32], outputs: &[u32]) -> (r: Result<
    bool,
    String,
>)
    ensures
        match parse_artifact(proof_bytes@) {
            Some(a) => r == Ok::<bool, String>(
                a.input_hash == words_digest(inputs@) && a.output_hash == words_digest(outputs@),
            ),
            None => r is Err,
        },
{
    match decode_artifact(proof_bytes) {
        Some(a) => {
            let input_hash = hash_floats(inputs);
            let output_hash = hash_floats(outputs);
            Ok(a.input_hash == input_hash && a.output_hash == output_hash)
        },
        None => Err(String::from_str("Invalid proof format")),
    }
}

} // verus!
