//! The failures the library reports.

use vstd::prelude::*;
use vstd::string::*;

verus! {

/// A failure of a registry, proving or verification request.
///
/// A binding mismatch is not among them: it is reported as a `false` verdict.
#[derive(Clone, Copy, Debug, PartialEq, Eq, Structural)]
pub enum ProverError {
    /// A transport encoding (base64) could not be decoded.
    EncodingError,
    /// The model bytes are empty.
    InvalidModelError,
    /// No model is registered under the identifier.
    ModelNotFound,
    /// The artifact bytes are not an artifact.
    MalformedArtifactError,
    /// The inference engine failed.
    InferenceError,
    /// The real proving engine was asked for, and it is not available.
    NotIntegratedError,
    /// The artifact is too large for its transport encoding.
    ArtifactTooLarge,
}

/// The stable code of each failure.
pub open spec fn error_code(e: ProverError) -> Seq<char> {
    match e {
        ProverError::EncodingError => "ENCODING_ERROR"@,
        ProverError::InvalidModelError => "INVALID_MODEL"@,
        ProverError::ModelNotFound => "MODEL_NOT_FOUND"@,
        ProverError::MalformedArtifactError => "MALFORMED_ARTIFACT"@,
        ProverError::InferenceError => "INFERENCE_FAILED"@,
        ProverError::NotIntegratedError => "NOT_INTEGRATED"@,
        ProverError::ArtifactTooLarge => "ARTIFACT_TOO_LARGE"@,
    }
}

impl ProverError {
    /// The stable code string of this failure.
    pub fn code(&self) -> (r: String)
        ensures
            r@ == error_code(*self),
    {
        match self {
            ProverError::EncodingError => String::from_str("ENCODING_ERROR"),
            ProverError::InvalidModelError => String::from_str("INVALID_MODEL"),
            ProverError::ModelNotFound => String::from_str("MODEL_NOT_FOUND"),
            ProverError::MalformedArtifactError => String::from_str("MALFORMED_ARTIFACT"),
            ProverError::InferenceError => String::from_str("INFERENCE_FAILED"),
            ProverError::NotIntegratedError => String::from_str("NOT_INTEGRATED"),
            ProverError::ArtifactTooLarge => String::from_str("ARTIFACT_TOO_LARGE"),
        }
    }
}

} // verus!
