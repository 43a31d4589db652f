//! The outside hashing, encoding and identifier services the library relies on,
//! each behind a small trusted item, together with the plain spec functions
//! that state their results.

use vstd::prelude::*;
use vstd::string::*;
use vstd::utf8::*;

verus! {

/// The SHA-256 digest of a byte sequence.
pub uninterp spec fn sha256_of(data: Seq<u8>) -> Seq<u8>;

/// What the standard base64 alphabet (with padding) decodes a text to, if it is well formed.
pub uninterp spec fn base64_decoded(text: Seq<char>) -> Option<Seq<u8>>;

/// The standard base64 text (with padding) of a byte sequence.
pub uninterp spec fn base64_text(data: Seq<u8>) -> Seq<char>;

/// The lowercase hexadecimal digit of a value below sixteen.
pub open spec fn hex_digit(n: u8) -> char {
    if n < 10 {
        ((n + 48) as u8) as char
    } else {
        ((n + 87) as u8) as char
    }
}

/// Lowercase hexadecimal text of a byte sequence: two digits per byte, high nibble first.
pub open spec fn hex_of(b: Seq<u8>) -> Seq<char> {
    Seq::new(
        2 * b.len(),
        |i: int|
            if i % 2 == 0 {
                hex_digit(b[i / 2] >> 4)
            } else {
                hex_digit(b[i / 2] & 15)
            },
    )
}

/// A digest written as `0x` followed by its lowercase hexadecimal text.
pub open spec fn prefixed_hex(b: Seq<u8>) -> Seq<char> {
    seq!['0', 'x'] + hex_of(b)
}

/// Relies on sha2's `Digest::digest` for `Sha256`: the 32-byte SHA-256 digest of `data`.
#[verifier::external_body]
pub(crate) fn sha256(data: &[u8]) -> (r: Vec<u8>)
    ensures
        r@ == sha256_of(data@),
        r@.len() == 32,
{
    <sha2::Sha256 as sha2::Digest>::digest(data).to_vec()
}

/// Relies on `hex::encode`: two lowercase digits per byte, in order.
#[verifier::external_body]
pub(crate) fn hex_encode(data: &[u8]) -> (r: String)
    ensures
        r@ == hex_of(data@),
{
    hex::encode(data)
}

/// Relies on base64's `Engine::decode` with the `STANDARD` engine.
#[verifier::external_body]
pub(crate) fn base64_decode(text: &str) -> (r: Result<Vec<u8>, base64::DecodeError>)
    ensures
        r is Ok <==> base64_decoded(text@) is Some,
        r is Ok ==> base64_decoded(text@) == Some(r->Ok_0@),
{
    base64::Engine::decode(&base64::engine::general_purpose::STANDARD, text)
}

/// Relies on base64's `Engine::encode` with the `STANDARD` engine, which
/// panics only when the encoded length overflows `usize`.
#[verifier::external_body]
pub(crate) fn base64_encode(data: &[u8]) -> (r: String)
    requires
        data@.len() <= usize::MAX / 2,
    ensures
        r@ == base64_text(data@),
{
    base64::Engine::encode(&base64::engine::general_purpose::STANDARD, data)
}

/// Relies on `uuid::Uuid::new_v4` and its hyphenated text form: a fresh random
/// identifier. Nothing is promised of its value. `new_v4` panics only when the
/// operating system's random source fails, which no argument can rule out.
#[verifier::external_body]
pub(crate) fn fresh_identifier() -> (r: String)
{
    uuid::Uuid::new_v4().to_string()
}

/// Relies on `String::from_utf8`: the text whose UTF-8 encoding is `bytes`,
/// if `bytes` is valid UTF-8.
#[verifier::external_body]
pub(crate) fn utf8_text(bytes: &[u8]) -> (r: Option<String>)
    ensures
        r is Some <==> valid_utf8(bytes@),
        r is Some ==> r->0@ == decode_utf8(bytes@),
{
    String::from_utf8(bytes.to_vec()).ok()
}

/// The error base64 decoding reports.
#[verifier::external_type_specification]
#[verifier::external_body]
pub struct ExDecodeError(base64::DecodeError);

/// `0x` followed by the lowercase hexadecimal text of `digest`.
pub fn prefixed_hex_text(digest: &[u8]) -> (r: String)
    ensures
        r@ == prefixed_hex(digest@),
{
    let mut s = String::from_str("0x");
    let h = hex_encode(digest);
    proof {
        reveal_strlit("0x");
    }
    s.append(h.as_str());
    s
}

} // verus!
