//! The model registry and the orchestration of proof requests.
//!
//! The registry keeps its records in registration order; a lookup finds the
//! most recent record under an identifier, so registering an identifier again
//! replaces the earlier record. Storage of the model bytes, inference and the
//! clock are outside the library: the caller persists what `prepare_model`
//! returns, runs the model, and hands the outputs and the time to
//! `generate_proof`.

use vstd::prelude::*;
use vstd::string::*;

use crate::artifact::{artifact_bytes, encode_artifact, parse_artifact};
use crate::binding::{
    binding_holds, hash_floats, pack_artifact, packed, unpack_artifact, verify_binding,
    words_digest,
};
use crate::error::ProverError;
use crate::primitives::{
    base64_decode, base64_decoded, base64_encode, base64_text, fresh_identifier, prefixed_hex,
    prefixed_hex_text, sha256, sha256_of,
};
use crate::types::{ModelInfo, ProofResult, ProveRequest, PublicInputs, RegisterModelRequest, VerifyRequest};

verus! {

/// The commitment of model bytes: `0x` and the lowercase hexadecimal SHA-256.
pub open spec fn model_commitment_of(bytes: Seq<u8>) -> Seq<char> {
    prefixed_hex(sha256_of(bytes))
}

/// Where the bytes of a model are stored: `<dir>/<id>.onnx`.
pub open spec fn model_path(dir: Seq<char>, id: Seq<char>) -> Seq<char> {
    dir + "/"@ + id + ".onnx"@
}

/// The most recent record registered under `id`.
pub open spec fn lookup_model(models: Seq<ModelInfo>, id: Seq<char>) -> Option<ModelInfo>
    decreases models.len(),
{
    if models.len() == 0 {
        None
    } else if models.last().id@ == id {
        Some(models.last())
    } else {
        lookup_model(models.drop_last(), id)
    }
}

/// Commitments are content addresses: two registrations whose payloads decode
/// to the same bytes get the same commitment, whatever identifiers they get.
pub proof fn lemma_same_bytes_same_commitment(payload_1: Seq<char>, payload_2: Seq<char>)
    requires
        base64_decoded(payload_1) is Some,
        base64_decoded(payload_1) == base64_decoded(payload_2),
    ensures
        model_commitment_of(base64_decoded(payload_1)->0) == model_commitment_of(
            base64_decoded(payload_2)->0,
        ),
{
}

/// The model registry together with the choice of proving engine.
pub struct JoltAtlasProver {
    models: Vec<ModelInfo>,
    model_dir: String,
    use_real_prover: bool,
}

/// A model ready to be stored and registered: its record and its bytes.
pub struct PreparedModel {
    pub info: ModelInfo,
    pub bytes: Vec<u8>,
}

/// The commitment of model bytes, as `0x` and lowercase hexadecimal.
pub fn compute_model_commitment(model_bytes: &[u8]) -> (r: String)
    ensures
        r@ == model_commitment_of(model_bytes@),
{
    let digest = sha256(model_bytes);
    prefixed_hex_text(digest.as_slice())
}

fn copy_words(w: &[u32]) -> (r: Vec<u32>)
    ensures
        r@ == w@,
{
    let mut out: Vec<u32> = Vec::new();
    let mut i: usize = 0;
    while i < w.len()
        invariant
            i <= w@.len(),
            out@ == w@.subrange(0, i as int),
        decreases w@.len() - i,
    {
        out.push(w[i]);
        i = i + 1;
        assert(out@ =~= w@.subrange(0, i as int));
    }
    assert(w@.subrange(0, w@.len() as int) =~= w@);
    out
}

impl JoltAtlasProver {
    /// The records, in registration order.
    pub closed spec fn records(&self) -> Seq<ModelInfo> {
        self.models@
    }

    /// The directory model bytes are stored under.
    pub closed spec fn storage_dir(&self) -> Seq<char> {
        self.model_dir@
    }

    /// Whether the real proving engine was chosen.
    pub closed spec fn real_engine(&self) -> bool {
        self.use_real_prover
    }

    /// An empty registry storing models under `model_dir`; `use_real_prover`
    /// chooses the real proving engine over the binding protocol's artifact.
    pub fn new(model_dir: String, use_real_prover: bool) -> (r: Self)
        ensures
            r.records() == Seq::<ModelInfo>::empty(),
            r.storage_dir() == model_dir@,
            r.real_engine() == use_real_prover,
    {
        JoltAtlasProver { models: Vec::new(), model_dir, use_real_prover }
    }

    fn find_model(&self, model_id: &str) -> (r: Option<usize>)
        ensures
            match r {
                Some(i) => i < self.records().len() && lookup_model(self.records(), model_id@)
                    == Some(self.records()[i as int]),
                None => lookup_model(self.records(), model_id@) is None,
            },
    {
        let key = model_id.to_owned();
        let mut i: usize = self.models.len();
        assert(self.models@.subrange(0, i as int) =~= self.models@);
        while i > 0
            invariant
                i <= self.models@.len(),
                key@ == model_id@,
                lookup_model(self.models@, model_id@) == lookup_model(
                    self.models@.subrange(0, i as int),
                    model_id@,
                ),
            decreases i,
        {
            let ghost prefix = self.models@.subrange(0, i as int);
            assert(prefix.last() == self.models@[i - 1]);
            if self.models[i - 1].id == key {
                return Some(i - 1);
            }
            assert(prefix.drop_last() =~= self.models@.subrange(0, i - 1));
            i = i - 1;
        }
        None
    }

    /// Decodes the model bytes of a registration request and builds the
    /// record for a fresh identifier, without registering it.
    pub fn prepare_model(&self, request: &RegisterModelRequest) -> (r: Result<
        PreparedModel,
        ProverError,
    >)
        ensures
            match base64_decoded(request.model_bytes@) {
                None => r == Err::<PreparedModel, ProverError>(ProverError::EncodingError),
                Some(bytes) => if bytes.len() == 0 {
                    r == Err::<PreparedModel, ProverError>(ProverError::InvalidModelError)
                } else {
                    &&& r is Ok
                    &&& r->Ok_0.bytes@ == bytes
                    &&& r->Ok_0.info.name@ == request.name@
                    &&& r->Ok_0.info.commitment@ == model_commitment_of(bytes)
                    &&& r->Ok_0.info.path@ == model_path(self.storage_dir(), r->Ok_0.info.id@)
                },
            },
    {
        let bytes = match base64_decode(request.model_bytes.as_str()) {
            Ok(b) => b,
            Err(_) => return Err(ProverError::EncodingError),
        };
        if bytes.len() == 0 {
            return Err(ProverError::InvalidModelError);
        }
        let commitment = compute_model_commitment(bytes.as_slice());
        let id = fresh_identifier();
        let mut path = self.model_dir.clone();
        path.append("/");
        path.append(id.as_str());
        path.append(".onnx");
        let info = ModelInfo { id, name: request.name.clone(), commitment, path };
        Ok(PreparedModel { info, bytes })
    }

    /// Registers a record; it replaces any earlier record under its identifier.
    pub fn insert_model(&mut self, info: ModelInfo)
        ensures
            final(self).records() == old(self).records().push(info),
            final(self).storage_dir() == old(self).storage_dir(),
            final(self).real_engine() == old(self).real_engine(),
            lookup_model(final(self).records(), info.id@) == Some(info),
    {
        self.models.push(info);
        assert(self.models@.drop_last() =~= old(self).models@);
    }

    /// Registers a model from a registration request. The model bytes are
    /// base64 decoded (`EncodingError` when they cannot be) and must not be
    /// empty (`InvalidModelError`); the record gets a fresh random identifier
    /// and the commitment of the bytes. Storing the bytes at the record's path
    /// is the caller's part (see `prepare_model`).
    pub fn register_model(&mut self, request: &RegisterModelRequest) -> (r: Result<
        ModelInfo,
        ProverError,
    >)
        ensures
            final(self).storage_dir() == old(self).storage_dir(),
            final(self).real_engine() == old(self).real_engine(),
            match base64_decoded(request.model_bytes@) {
                None => r == Err::<ModelInfo, ProverError>(ProverError::EncodingError)
                    && final(self).records() == old(self).records(),
                Some(bytes) => if bytes.len() == 0 {
                    r == Err::<ModelInfo, ProverError>(ProverError::InvalidModelError)
                        && final(self).records() == old(self).records()
                } else {
                    &&& r is Ok
                    &&& r->Ok_0.name@ == request.name@
                    &&& r->Ok_0.commitment@ == model_commitment_of(bytes)
                    &&& r->Ok_0.path@ == model_path(old(self).storage_dir(), r->Ok_0.id@)
                    &&& final(self).records() == old(self).records().push(r->Ok_0)
                    &&& lookup_model(final(self).records(), r->Ok_0.id@) == Some(r->Ok_0)
                },
            },
    {
        match self.prepare_model(request) {
            Ok(prepared) => {
                let info = prepared.info;
                let kept = ModelInfo {
                    id: info.id.clone(),
                    name: info.name.clone(),
                    commitment: info.commitment.clone(),
                    path: info.path.clone(),
                };
                self.insert_model(info);
                Ok(kept)
            },
            Err(e) => Err(e),
        }
    }

    /// The commitment of the model registered under `model_id`, if any.
    pub fn get_model_commitment(&self, model_id: &str) -> (r: Option<String>)
        ensures
            match lookup_model(self.records(), model_id@) {
                Some(m) => r is Some && r->0@ == m.commitment@,
                None => r is None,
            },
    {
        match self.find_model(model_id) {
            Some(i) => Some(self.models[i].commitment.clone()),
            None => None,
        }
    }

    /// The storage path of the model registered under `model_id`, if any.
    pub fn get_model_path(&self, model_id: &str) -> (r: Option<String>)
        ensures
            match lookup_model(self.records(), model_id@) {
                Some(m) => r is Some && r->0@ == m.path@,
                None => r is None,
            },
    {
        match self.find_model(model_id) {
            Some(i) => Some(self.models[i].path.clone()),
            None => None,
        }
    }

    /// Generates the proof of one inference: `outputs` is what the model
    /// registered under `request.model_id` computed on `request.inputs`, and
    /// `timestamp` the time of the request in Unix seconds. Fails with
    /// `ModelNotFound` for an unknown model and with `NotIntegratedError` when
    /// the real proving engine was chosen; otherwise the proof is the base64
    /// text of the artifact that binds the model's commitment to the hashes
    /// of the inputs and the outputs.
    pub fn generate_proof(&self, request: &ProveRequest, outputs: &[u32], timestamp: u64) -> (r:
        Result<ProofResult, ProverError>)
        ensures
            match lookup_model(self.records(), request.model_id@) {
                None => r == Err::<ProofResult, ProverError>(ProverError::ModelNotFound),
                Some(m) => if self.real_engine() {
                    r == Err::<ProofResult, ProverError>(ProverError::NotIntegratedError)
                } else {
                    let ih = words_digest(request.inputs@);
                    let oh = words_digest(outputs@);
                    let bytes = artifact_bytes(
                        packed(m.commitment@, ih, oh, outputs@, timestamp),
                    );
                    if bytes.len() > usize::MAX / 2 {
                        r == Err::<ProofResult, ProverError>(ProverError::ArtifactTooLarge)
                    } else {
                        &&& r is Ok
                        &&& r->Ok_0.proof@ == base64_text(bytes)
                        &&& r->Ok_0.model_commitment@ == m.commitment@
                        &&& r->Ok_0.input_hash@ == ih
                        &&& r->Ok_0.output_hash@ == oh
                        &&& r->Ok_0.public_inputs.model_commitment@ == m.commitment@
                        &&& r->Ok_0.public_inputs.input_hash@ == ih
                        &&& r->Ok_0.public_inputs.output_hash@ == oh
                        &&& r->Ok_0.public_inputs.output@ == outputs@
                        &&& r->Ok_0.public_inputs.timestamp == timestamp
                    }
                },
            },
    {
        let i = match self.find_model(request.model_id.as_str()) {
            Some(i) => i,
            None => return Err(ProverError::ModelNotFound),
        };
        let commitment = &self.models[i].commitment;
        let input_hash = hash_floats(request.inputs.as_slice());
        let output_hash = hash_floats(outputs);
        if self.use_real_prover {
            return Err(ProverError::NotIntegratedError);
        }
        let artifact = pack_artifact(
            commitment.as_str(),
            input_hash.as_str(),
            output_hash.as_str(),
            copy_words(outputs),
            timestamp,
        );
        let bytes = encode_artifact(&artifact);
        if bytes.len() > usize::MAX / 2 {
            return Err(ProverError::ArtifactTooLarge);
        }
        let proof = base64_encode(bytes.as_slice());
        let public_inputs = PublicInputs {
            model_commitment: commitment.clone(),
            input_hash: input_hash.clone(),
            output_hash: output_hash.clone(),
            output: copy_words(outputs),
            timestamp,
        };
        Ok(
            ProofResult {
                proof,
                model_commitment: commitment.clone(),
                input_hash,
                output_hash,
                public_inputs,
            },
        )
    }

    /// Verifies a proof against the claimed triple of a request. Fails with
    /// `NotIntegratedError` when the real proving engine was chosen, with
    /// `EncodingError` when the proof is not base64, and with
    /// `MalformedArtifactError` when its bytes are not an artifact; otherwise
    /// the verdict is whether the artifact is bound to the claimed triple.
    pub fn verify_proof(&self, request: &VerifyRequest) -> (r: Result<bool, ProverError>)
        ensures
            if self.real_engine() {
                r == Err::<bool, ProverError>(ProverError::NotIntegratedError)
            } else {
                match base64_decoded(request.proof@) {
                    None => r == Err::<bool, ProverError>(ProverError::EncodingError),
                    Some(bytes) => match parse_artifact(bytes) {
                        None => r == Err::<bool, ProverError>(
                            ProverError::MalformedArtifactError,
                        ),
                        Some(a) => r == Ok::<bool, ProverError>(
                            binding_holds(
                                a,
                                request.model_commitment@,
                                request.input_hash@,
                                request.output_hash@,
                            ),
                        ),
                    },
                }
            },
    {
        if self.use_real_prover {
            return Err(ProverError::NotIntegratedError);
        }
        let bytes = match base64_decode(request.proof.as_str()) {
            Ok(b) => b,
            Err(_) => return Err(ProverError::EncodingError),
        };
        let artifact = match unpack_artifact(bytes.as_slice()) {
            Ok(a) => a,
            Err(e) => return Err(e),
        };
        Ok(
            verify_binding(
                &artifact,
                request.model_commitment.as_str(),
                request.input_hash.as_str(),
                request.output_hash.as_str(),
            ),
        )
    }
}

} // verus!
