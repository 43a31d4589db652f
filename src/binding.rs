//! The binding protocol: hashes of value vectors, the seed derived from a
//! (model, input, output) triple, and the artifact that carries them.

use vstd::prelude::*;
use vstd::string::*;
use vstd::utf8::*;

use crate::artifact::{
    artifact_bytes, decode_artifact, lemma_artifact_round_trip, parse_artifact,
    lemma_text_fits, text_fits, ArtifactView, ProofArtifact,
};
use crate::codec::{lemma_words_le_injective, push_bytes, words_le, words_to_le_bytes};
use crate::error::ProverError;
use crate::primitives::{hex_encode, hex_of, prefixed_hex, prefixed_hex_text, sha256, sha256_of};

verus! {

/// The only artifact version this library writes and accepts.
pub const ARTIFACT_VERSION: u8 = 1;

/// The prover identifier that artifacts of this binding protocol carry.
pub open spec fn prover_tag() -> Seq<char> {
    "jolt-atlas-mock-v1"@
}

/// The prover identifier as a string.
pub fn prover_identifier() -> (r: String)
    ensures
        r@ == prover_tag(),
{
    String::from_str("jolt-atlas-mock-v1")
}

/// The hash of a value vector: SHA-256 over the little-endian bytes of each
/// value in order, written as `0x` and lowercase hexadecimal.
pub open spec fn words_digest(values: Seq<u32>) -> Seq<char> {
    prefixed_hex(sha256_of(words_le(values)))
}

/// The hash of a vector of single-precision values, given as their bit patterns.
pub fn hash_floats(values: &[u32]) -> (r: String)
    ensures
        r@ == words_digest(values@),
{
    let bytes = words_to_le_bytes(values);
    let digest = sha256(bytes.as_slice());
    prefixed_hex_text(digest.as_slice())
}

/// The seed of a triple: SHA-256 over the UTF-8 text of the three hashes, in order.
pub open spec fn seed_of(commitment: Seq<char>, input_hash: Seq<char>, output_hash: Seq<char>) -> Seq<u8> {
    sha256_of(encode_utf8(commitment) + encode_utf8(input_hash) + encode_utf8(output_hash))
}

/// The domain-separation tag of the second check fragment: the bytes of `lookup`.
pub open spec fn lookup_tag() -> Seq<u8> {
    seq![108u8, 111u8, 111u8, 107u8, 117u8, 112u8]
}

/// The randomness fragment: bytes 0 to 15 of the seed, in hexadecimal.
pub open spec fn randomness_of(seed: Seq<u8>) -> Seq<char> {
    hex_of(Seq::new(16, |i: int| seed[i]))
}

/// The first check fragment: bytes 16 to 31 of the seed, in hexadecimal.
pub open spec fn check_1_of(seed: Seq<u8>) -> Seq<char> {
    hex_of(Seq::new(16, |i: int| seed[16 + i]))
}

/// The second check fragment: the 32 bytes of SHA-256 over the seed followed
/// by the tag, in hexadecimal.
pub open spec fn check_2_of(seed: Seq<u8>) -> Seq<char> {
    hex_of(Seq::new(32, |i: int| sha256_of(seed + lookup_tag())[i]))
}

/// The seed of a triple of hashes.
pub fn derive_seed(commitment: &str, input_hash: &str, output_hash: &str) -> (r: Vec<u8>)
    ensures
        r@ == seed_of(commitment@, input_hash@, output_hash@),
        r@.len() == 32,
{
    let mut message: Vec<u8> = Vec::new();
    push_bytes(&mut message, commitment.as_bytes());
    push_bytes(&mut message, input_hash.as_bytes());
    push_bytes(&mut message, output_hash.as_bytes());
    assert(message@ =~= encode_utf8(commitment@) + encode_utf8(input_hash@) + encode_utf8(
        output_hash@,
    ));
    sha256(message.as_slice())
}

/// The artifact that binds a triple, its outputs and a timestamp.
pub open spec fn packed(
    commitment: Seq<char>,
    input_hash: Seq<char>,
    output_hash: Seq<char>,
    outputs: Seq<u32>,
    timestamp: u64,
) -> ArtifactView {
    let seed = seed_of(commitment, input_hash, output_hash);
    ArtifactView {
        version: 1,
        prover_identifier: prover_tag(),
        model_commitment: commitment,
        input_hash,
        output_hash,
        outputs,
        timestamp,
        binding_randomness: randomness_of(seed),
        binding_check_1: check_1_of(seed),
        binding_check_2: check_2_of(seed),
    }
}

/// Builds the artifact that binds a model commitment, an input hash and an
/// output hash, carrying the outputs and the timestamp.
pub fn pack_artifact(
    commitment: &str,
    input_hash: &str,
    output_hash: &str,
    outputs: Vec<u32>,
    timestamp: u64,
) -> (r: ProofArtifact)
    ensures
        r@ == packed(commitment@, input_hash@, output_hash@, outputs@, timestamp),
{
    let seed = derive_seed(commitment, input_hash, output_hash);
    let mut tagged: Vec<u8> = Vec::new();
    push_bytes(&mut tagged, seed.as_slice());
    tagged.push(108u8);
    tagged.push(111u8);
    tagged.push(111u8);
    tagged.push(107u8);
    tagged.push(117u8);
    tagged.push(112u8);
    assert(tagged@ =~= seed@ + lookup_tag());
    let lookup = sha256(tagged.as_slice());
    assert(seed@.subrange(0, 16) =~= Seq::new(16, |i: int| seed@[i]));
    assert(seed@.subrange(16, 32) =~= Seq::new(16, |i: int| seed@[16 + i]));
    assert(lookup@ =~= Seq::new(32, |i: int| sha256_of(seed@ + lookup_tag())[i]));
    ProofArtifact {
        version: ARTIFACT_VERSION,
        prover_identifier: prover_identifier(),
        model_commitment: commitment.to_owned(),
        input_hash: input_hash.to_owned(),
        output_hash: output_hash.to_owned(),
        outputs,
        timestamp,
        binding_randomness: hex_encode(&seed.as_slice()[0..16]),
        binding_check_1: hex_encode(&seed.as_slice()[16..32]),
        binding_check_2: hex_encode(lookup.as_slice()),
    }
}

/// Whether an artifact is bound to the claimed triple: the version and the
/// prover are the known ones, the artifact's triple is the claimed one, and
/// the three fragments are those re-derived from the artifact's own triple.
pub open spec fn binding_holds(
    a: ArtifactView,
    commitment: Seq<char>,
    input_hash: Seq<char>,
    output_hash: Seq<char>,
) -> bool {
    let seed = seed_of(a.model_commitment, a.input_hash, a.output_hash);
    &&& a.version == 1
    &&& a.prover_identifier == prover_tag()
    &&& a.model_commitment == commitment
    &&& a.input_hash == input_hash
    &&& a.output_hash == output_hash
    &&& a.binding_randomness == randomness_of(seed)
    &&& a.binding_check_1 == check_1_of(seed)
    &&& a.binding_check_2 == check_2_of(seed)
}

/// Checks that an artifact is bound to the claimed triple.
pub fn verify_binding(
    a: &ProofArtifact,
    commitment: &str,
    input_hash: &str,
    output_hash: &str,
) -> (r: bool)
    ensures
        r == binding_holds(a@, commitment@, input_hash@, output_hash@),
{
    if a.version != ARTIFACT_VERSION {
        return false;
    }
    if a.prover_identifier != prover_identifier() {
        return false;
    }
    if a.model_commitment != commitment.to_owned() || a.input_hash != input_hash.to_owned()
        || a.output_hash != output_hash.to_owned() {
        return false;
    }
    let seed = derive_seed(
        a.model_commitment.as_str(),
        a.input_hash.as_str(),
        a.output_hash.as_str(),
    );
    let mut tagged: Vec<u8> = Vec::new();
    push_bytes(&mut tagged, seed.as_slice());
    tagged.push(108u8);
    tagged.push(111u8);
    tagged.push(111u8);
    tagged.push(107u8);
    tagged.push(117u8);
    tagged.push(112u8);
    assert(tagged@ =~= seed@ + lookup_tag());
    let lookup = sha256(tagged.as_slice());
    assert(seed@.subrange(0, 16) =~= Seq::new(16, |i: int| seed@[i]));
    assert(seed@.subrange(16, 32) =~= Seq::new(16, |i: int| seed@[16 + i]));
    assert(lookup@ =~= Seq::new(32, |i: int| sha256_of(seed@ + lookup_tag())[i]));
    a.binding_randomness == hex_encode(&seed.as_slice()[0..16]) && a.binding_check_1
        == hex_encode(&seed.as_slice()[16..32]) && a.binding_check_2 == hex_encode(
        lookup.as_slice(),
    )
}

/// Reads an artifact from its bytes.
pub fn unpack_artifact(bytes: &[u8]) -> (r: Result<ProofArtifact, ProverError>)
    ensures
        match r {
            Ok(a) => parse_artifact(bytes@) == Some(a@),
            Err(e) => parse_artifact(bytes@) is None && e == ProverError::MalformedArtifactError,
        },
{
    match decode_artifact(bytes) {
        Some(a) => Ok(a),
        None => Err(ProverError::MalformedArtifactError),
    }
}

/// Hashing a value vector depends on the values alone: the same vector,
/// hashed twice, gives the same digest.
pub proof fn lemma_hash_floats_deterministic(a: Seq<u32>, b: Seq<u32>)
    requires
        a == b,
    ensures
        words_digest(a) == words_digest(b),
{
}

/// Two different value vectors, a reordering included, hand different bytes
/// to the hash; distinct digests then rest on SHA-256 being collision resistant.
pub proof fn lemma_distinct_values_distinct_hash_input(a: Seq<u32>, b: Seq<u32>)
    requires
        a != b,
    ensures
        words_le(a) != words_le(b),
{
    if words_le(a) == words_le(b) {
        lemma_words_le_injective(a, b);
    }
}

/// Unpacking the bytes of a packed artifact gives back that artifact: the
/// commitment, the two hashes, the outputs and the timestamp that went in.
pub proof fn lemma_pack_unpack_round_trip(
    commitment: Seq<char>,
    input_hash: Seq<char>,
    output_hash: Seq<char>,
    outputs: Seq<u32>,
    timestamp: u64,
)
    requires
        text_fits(commitment),
        text_fits(input_hash),
        text_fits(output_hash),
        outputs.len() <= u64::MAX,
    ensures
        ({
            let a = packed(commitment, input_hash, output_hash, outputs, timestamp);
            &&& parse_artifact(artifact_bytes(a)) == Some(a)
            &&& a.model_commitment == commitment
            &&& a.input_hash == input_hash
            &&& a.output_hash == output_hash
            &&& a.outputs == outputs
            &&& a.timestamp == timestamp
        }),
{
    let a = packed(commitment, input_hash, output_hash, outputs, timestamp);
    reveal_strlit("jolt-atlas-mock-v1");
    lemma_text_fits(prover_tag());
    lemma_text_fits(a.binding_randomness);
    lemma_text_fits(a.binding_check_1);
    lemma_text_fits(a.binding_check_2);
    lemma_artifact_round_trip(a);
}

/// A packed artifact is bound to the triple it was packed from.
pub proof fn lemma_pack_verifies(
    commitment: Seq<char>,
    input_hash: Seq<char>,
    output_hash: Seq<char>,
    outputs: Seq<u32>,
    timestamp: u64,
)
    ensures
        binding_holds(
            packed(commitment, input_hash, output_hash, outputs, timestamp),
            commitment,
            input_hash,
            output_hash,
        ),
{
}

/// An artifact whose commitment, input hash or output hash differs from the
/// claimed one is not bound to the claim.
pub proof fn lemma_tampered_triple_rejected(
    a: ArtifactView,
    commitment: Seq<char>,
    input_hash: Seq<char>,
    output_hash: Seq<char>,
)
    requires
        a.model_commitment != commitment || a.input_hash != input_hash || a.output_hash
            != output_hash,
    ensures
        !binding_holds(a, commitment, input_hash, output_hash),
{
}

/// An artifact of any version but the known one is never bound to a claim.
pub proof fn lemma_unknown_version_rejected(
    a: ArtifactView,
    commitment: Seq<char>,
    input_hash: Seq<char>,
    output_hash: Seq<char>,
)
    requires
        a.version != 1,
    ensures
        !binding_holds(a, commitment, input_hash, output_hash),
{
}

} // verus!
