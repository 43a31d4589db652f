//! Request, response and record types of the prover service.
//!
//! Single-precision values are carried as their IEEE-754 bit patterns.

use vstd::prelude::*;

verus! {

/// Health check response.
pub struct HealthResponse {
    pub status: String,
    pub version: String,
    pub prover: String,
}

/// A failure as reported to a client: a message and a stable code.
pub struct ErrorResponse {
    pub error: String,
    pub code: String,
}

/// Request to generate a proof.
pub struct ProveRequest {
    /// Identifier of a registered model.
    pub model_id: String,
    /// Input features, as bit patterns of single-precision values.
    pub inputs: Vec<u32>,
    /// Expected output, as bit patterns; carried, not used.
    pub expected_output: Option<Vec<u32>>,
    /// Names of the input features; carried, not used.
    pub input_names: Option<Vec<String>>,
}

/// Response to a proof request.
pub struct ProveResponse {
    pub success: bool,
    /// The artifact, base64 encoded.
    pub proof: String,
    pub model_commitment: String,
    pub input_hash: String,
    pub output_hash: String,
    pub public_inputs: PublicInputs,
    pub proving_time_ms: u64,
    pub error: Option<String>,
}

/// The public values a proof is about.
pub struct PublicInputs {
    pub model_commitment: String,
    pub input_hash: String,
    pub output_hash: String,
    /// The inference output, as bit patterns of single-precision values.
    pub output: Vec<u32>,
    /// Seconds since the Unix epoch.
    pub timestamp: u64,
}

/// Request to verify a proof against a claimed triple.
pub struct VerifyRequest {
    /// The artifact, base64 encoded.
    pub proof: String,
    pub model_commitment: String,
    pub input_hash: String,
    pub output_hash: String,
    pub public_inputs: Option<PublicInputs>,
}

/// Response to a verification request.
pub struct VerifyResponse {
    pub valid: bool,
    pub verification_time_ms: u64,
    pub error: Option<String>,
}

/// Request to register a model.
pub struct RegisterModelRequest {
    /// Human-readable name.
    pub name: String,
    /// The model bytes, base64 encoded.
    pub model_bytes: String,
    pub description: Option<String>,
}

/// Response to a registration.
pub struct RegisterModelResponse {
    pub success: bool,
    pub model_id: String,
    pub commitment: String,
    pub error: Option<String>,
}

/// Response to a commitment lookup.
pub struct ModelCommitmentResponse {
    pub model_id: String,
    pub commitment: String,
}

/// A registered model.
pub struct ModelInfo {
    pub id: String,
    pub name: String,
    /// `0x` followed by the lowercase hexadecimal SHA-256 of the model bytes.
    pub commitment: String,
    /// Where the model bytes are stored.
    pub path: String,
}

/// The outcome of a proof request.
pub struct ProofResult {
    /// The artifact, base64 encoded.
    pub proof: String,
    pub model_commitment: String,
    pub input_hash: String,
    pub output_hash: String,
    pub public_inputs: PublicInputs,
}

} // verus!
