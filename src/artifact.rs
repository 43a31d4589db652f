//! The proof artifact and its versioned byte layout.
//!
//! Layout: the version byte, then each text field as its UTF-8 byte length
//! (eight bytes, little-endian) followed by its bytes, the outputs as their
//! count (eight bytes) followed by four little-endian bytes per value, and the
//! timestamp as eight little-endian bytes. Fields appear in declaration order
//! and nothing may follow the last one.

use vstd::prelude::*;
use vstd::string::*;
use vstd::utf8::*;

use crate::codec::{
    lemma_u64_round_trip, lemma_u32_round_trip, push_bytes, push_u32_le, push_u64_le,
    read_u32_le, read_u64_le, u32_at, u32_le, u64_at, u64_le, words_le,
};
use crate::primitives::utf8_text;

verus! {

/// The unit exchanged between proof generation and verification.
pub struct ProofArtifact {
    pub version: u8,
    pub prover_identifier: String,
    pub model_commitment: String,
    pub input_hash: String,
    pub output_hash: String,
    /// Output values as IEEE-754 single-precision bit patterns.
    pub outputs: Vec<u32>,
    pub timestamp: u64,
    pub binding_randomness: String,
    pub binding_check_1: String,
    pub binding_check_2: String,
}

/// The mathematical content of a [`ProofArtifact`].
pub struct ArtifactView {
    pub version: u8,
    pub prover_identifier: Seq<char>,
    pub model_commitment: Seq<char>,
    pub input_hash: Seq<char>,
    pub output_hash: Seq<char>,
    pub outputs: Seq<u32>,
    pub timestamp: u64,
    pub binding_randomness: Seq<char>,
    pub binding_check_1: Seq<char>,
    pub binding_check_2: Seq<char>,
}

impl View for ProofArtifact {
    type V = ArtifactView;

    open spec fn view(&self) -> ArtifactView {
        ArtifactView {
            version: self.version,
            prover_identifier: self.prover_identifier@,
            model_commitment: self.model_commitment@,
            input_hash: self.input_hash@,
            output_hash: self.output_hash@,
            outputs: self.outputs@,
            timestamp: self.timestamp,
            binding_randomness: self.binding_randomness@,
            binding_check_1: self.binding_check_1@,
            binding_check_2: self.binding_check_2@,
        }
    }
}

/// A text field: its UTF-8 byte length, then its UTF-8 bytes.
#[verifier::opaque]
pub open spec fn text_field(s: Seq<char>) -> Seq<u8> {
    u64_le(encode_utf8(s).len() as u64) + encode_utf8(s)
}

/// A word field: the number of words, then the bytes of each word.
#[verifier::opaque]
pub open spec fn words_field(w: Seq<u32>) -> Seq<u8> {
    u64_le(w.len() as u64) + words_le(w)
}

/// The bytes an artifact is written as.
pub open spec fn artifact_bytes(a: ArtifactView) -> Seq<u8> {
    seq![a.version] + text_field(a.prover_identifier) + text_field(a.model_commitment)
        + text_field(a.input_hash) + text_field(a.output_hash) + words_field(a.outputs) + u64_le(
        a.timestamp,
    ) + text_field(a.binding_randomness) + text_field(a.binding_check_1) + text_field(
        a.binding_check_2,
    )
}

/// A text whose UTF-8 length can be written in a length prefix.
pub open spec fn text_fits(s: Seq<char>) -> bool {
    encode_utf8(s).len() <= u64::MAX
}

/// Every length in the artifact can be written in a length prefix.
pub open spec fn artifact_fits(a: ArtifactView) -> bool {
    &&& text_fits(a.prover_identifier)
    &&& text_fits(a.model_commitment)
    &&& text_fits(a.input_hash)
    &&& text_fits(a.output_hash)
    &&& a.outputs.len() <= u64::MAX
    &&& text_fits(a.binding_randomness)
    &&& text_fits(a.binding_check_1)
    &&& text_fits(a.binding_check_2)
}

/// A text of at most a quarter of `u64::MAX` characters fits a length prefix.
pub proof fn lemma_text_fits(s: Seq<char>)
    requires
        4 * s.len() <= u64::MAX,
    ensures
        text_fits(s),
{
    lemma_utf8_len_bound(s);
}

proof fn lemma_utf8_len_bound(s: Seq<char>)
    ensures
        encode_utf8(s).len() <= 4 * s.len(),
    decreases s.len(),
{
    if s.len() > 0 {
        lemma_utf8_len_bound(s.drop_first());
    }
}

/// An eight-byte little-endian word at `p`, and the position after it.
#[verifier::opaque]
pub open spec fn parse_u64(b: Seq<u8>, p: int) -> Option<(u64, int)> {
    if 0 <= p && p + 8 <= b.len() {
        Some((u64_at(b, p), p + 8))
    } else {
        None
    }
}

/// A text field at `p`, and the position after it.
#[verifier::opaque]
pub open spec fn parse_text(b: Seq<u8>, p: int) -> Option<(Seq<char>, int)> {
    match parse_u64(b, p) {
        Some((n, q)) => if q + n <= b.len() && valid_utf8(b.subrange(q, q + n)) {
            Some((decode_utf8(b.subrange(q, q + n)), q + n))
        } else {
            None
        },
        None => None,
    }
}

/// A word field at `p`, and the position after it.
#[verifier::opaque]
pub open spec fn parse_words(b: Seq<u8>, p: int) -> Option<(Seq<u32>, int)> {
    match parse_u64(b, p) {
        Some((n, q)) => if q + 4 * n <= b.len() {
            Some((Seq::new(n as nat, |i: int| u32_at(b, q + 4 * i)), q + 4 * n))
        } else {
            None
        },
        None => None,
    }
}

/// The artifact that `b` holds, if `b` is exactly one artifact in the layout.
pub open spec fn parse_artifact(b: Seq<u8>) -> Option<ArtifactView> {
    if b.len() == 0 {
        None
    } else {
        match parse_text(b, 1) {
            None => None,
            Some((prover, p1)) => match parse_text(b, p1) {
                None => None,
                Some((mc, p2)) => match parse_text(b, p2) {
                    None => None,
                    Some((ih, p3)) => match parse_text(b, p3) {
                        None => None,
                        Some((oh, p4)) => match parse_words(b, p4) {
                            None => None,
                            Some((outs, p5)) => match parse_u64(b, p5) {
                                None => None,
                                Some((ts, p6)) => match parse_text(b, p6) {
                                    None => None,
                                    Some((br, p7)) => match parse_text(b, p7) {
                                        None => None,
                                        Some((c1, p8)) => match parse_text(b, p8) {
                                            None => None,
                                            Some((c2, p9)) => if p9 == b.len() {
                                                Some(
                                                    ArtifactView {
                                                        version: b[0],
                                                        prover_identifier: prover,
                                                        model_commitment: mc,
                                                        input_hash: ih,
                                                        output_hash: oh,
                                                        outputs: outs,
                                                        timestamp: ts,
                                                        binding_randomness: br,
                                                        binding_check_1: c1,
                                                        binding_check_2: c2,
                                                    },
                                                )
                                            } else {
                                                None
                                            },
                                        },
                                    },
                                },
                            },
                        },
                    },
                },
            },
        }
    }
}

proof fn lemma_field_at(b: Seq<u8>, pre: Seq<u8>, f: Seq<u8>)
    requires
        pre.len() + f.len() <= b.len(),
        b.subrange(0, pre.len() + f.len() as int) == pre + f,
    ensures
        b.subrange(pre.len() as int, pre.len() + f.len() as int) == f,
        b.subrange(0, pre.len() as int) == pre,
{
    let n = pre.len() + f.len() as int;
    let m = pre.len() as int;
    assert forall|j: int| 0 <= j < f.len() implies b.subrange(m, n)[j] == f[j] by {
        assert(b.subrange(0, n)[m + j] == b[m + j]);
        assert((pre + f)[m + j] == f[j]);
        assert(b.subrange(m, n)[j] == b[m + j]);
    }
    assert forall|j: int| 0 <= j < m implies b.subrange(0, m)[j] == pre[j] by {
        assert(b.subrange(0, n)[j] == b[j]);
        assert((pre + f)[j] == pre[j]);
    }
    assert(b.subrange(m, n) =~= f);
    assert(b.subrange(0, m) =~= pre);
}

proof fn lemma_parse_u64(b: Seq<u8>, p: int, x: u64)
    requires
        0 <= p,
        p + 8 <= b.len(),
        b.subrange(p, p + 8) == u64_le(x),
    ensures
        parse_u64(b, p) == Some((x, p + 8)),
{
    reveal(parse_u64);
    lemma_u64_round_trip(x, b, p);
}

proof fn lemma_parse_text(b: Seq<u8>, p: int, s: Seq<char>)
    requires
        0 <= p,
        p + text_field(s).len() <= b.len(),
        b.subrange(p, p + text_field(s).len()) == text_field(s),
        text_fits(s),
    ensures
        parse_text(b, p) == Some((s, p + text_field(s).len())),
{
    let e = encode_utf8(s);
    let t = text_field(s);
    encode_utf8_valid_utf8(s);
    encode_utf8_decode_utf8(s);
    reveal(text_field);
    reveal(parse_text);
    assert(b.subrange(p, b.len() as int).subrange(0, t.len() as int) =~= t);
    lemma_field_at(b.subrange(p, b.len() as int), u64_le(e.len() as u64), e);
    assert(b.subrange(p, b.len() as int).subrange(0, 8) =~= b.subrange(p, p + 8));
    lemma_parse_u64(b, p, e.len() as u64);
    assert(b.subrange(p, b.len() as int).subrange(8, 8 + e.len() as int) =~= b.subrange(
        p + 8,
        p + 8 + e.len(),
    ));
}

proof fn lemma_word_byte(b: Seq<u8>, p: int, w: Seq<u32>, i: int, k: int)
    requires
        0 <= p,
        0 <= i < w.len(),
        0 <= k < 4,
        p + 8 + words_le(w).len() <= b.len(),
        b.subrange(p + 8, p + 8 + words_le(w).len() as int) == words_le(w),
    ensures
        b[p + 8 + 4 * i + k] == u32_le(w[i])[k],
{
    let e = words_le(w);
    let j = 4 * i + k;
    assert(j / 4 == i && j % 4 == k && 0 <= j < 4 * w.len()) by (nonlinear_arith)
        requires
            j == 4 * i + k,
            0 <= k < 4,
            0 <= i < w.len(),
    ;
    assert(e[j] == u32_le(w[j / 4])[j % 4]);
    assert(b.subrange(p + 8, p + 8 + e.len() as int)[j] == b[p + 8 + j]);
}

proof fn lemma_parse_words(b: Seq<u8>, p: int, w: Seq<u32>)
    requires
        0 <= p,
        p + words_field(w).len() <= b.len(),
        b.subrange(p, p + words_field(w).len()) == words_field(w),
        w.len() <= u64::MAX,
    ensures
        parse_words(b, p) == Some((w, p + words_field(w).len())),
{
    let e = words_le(w);
    let t = words_field(w);
    reveal(words_field);
    reveal(parse_words);
    assert(b.subrange(p, b.len() as int).subrange(0, t.len() as int) =~= t);
    lemma_field_at(b.subrange(p, b.len() as int), u64_le(w.len() as u64), e);
    assert(b.subrange(p, b.len() as int).subrange(0, 8) =~= b.subrange(p, p + 8));
    lemma_parse_u64(b, p, w.len() as u64);
    assert(b.subrange(p, b.len() as int).subrange(8, 8 + e.len() as int) =~= b.subrange(
        p + 8,
        p + 8 + e.len(),
    ));
    let q = p + 8;
    let got = Seq::new(w.len(), |i: int| u32_at(b, q + 4 * i));
    assert forall|i: int| 0 <= i < w.len() implies got[i] == w[i] by {
        lemma_word_byte(b, p, w, i, 0);
        lemma_word_byte(b, p, w, i, 1);
        lemma_word_byte(b, p, w, i, 2);
        lemma_word_byte(b, p, w, i, 3);
        lemma_u32_round_trip(
            w[i],
            b[q + 4 * i],
            b[q + 4 * i + 1],
            b[q + 4 * i + 2],
            b[q + 4 * i + 3],
        );
    }
    assert(got =~= w);
}

/// Where each field of an artifact's bytes begins, and where the bytes end.
pub open spec fn field_offsets(a: ArtifactView) -> Seq<int> {
    let p1 = 1 + text_field(a.prover_identifier).len() as int;
    let p2 = p1 + text_field(a.model_commitment).len();
    let p3 = p2 + text_field(a.input_hash).len();
    let p4 = p3 + text_field(a.output_hash).len();
    let p5 = p4 + words_field(a.outputs).len();
    let p6 = p5 + 8;
    let p7 = p6 + text_field(a.binding_randomness).len();
    let p8 = p7 + text_field(a.binding_check_1).len();
    let p9 = p8 + text_field(a.binding_check_2).len();
    seq![1, p1, p2, p3, p4, p5, p6, p7, p8, p9]
}

proof fn lemma_artifact_fields(a: ArtifactView)
    requires
        artifact_fits(a),
    ensures
        ({
            let b = artifact_bytes(a);
            let o = field_offsets(a);
            &&& b.len() == o[9]
            &&& b[0] == a.version
            &&& parse_text(b, o[0]) == Some((a.prover_identifier, o[1]))
            &&& parse_text(b, o[1]) == Some((a.model_commitment, o[2]))
            &&& parse_text(b, o[2]) == Some((a.input_hash, o[3]))
            &&& parse_text(b, o[3]) == Some((a.output_hash, o[4]))
            &&& parse_words(b, o[4]) == Some((a.outputs, o[5]))
            &&& parse_u64(b, o[5]) == Some((a.timestamp, o[6]))
            &&& parse_text(b, o[6]) == Some((a.binding_randomness, o[7]))
            &&& parse_text(b, o[7]) == Some((a.binding_check_1, o[8]))
            &&& parse_text(b, o[8]) == Some((a.binding_check_2, o[9]))
        }),
{
    let b = artifact_bytes(a);
    let s0 = seq![a.version];
    let f1 = text_field(a.prover_identifier);
    let f2 = text_field(a.model_commitment);
    let f3 = text_field(a.input_hash);
    let f4 = text_field(a.output_hash);
    let f5 = words_field(a.outputs);
    let f6 = u64_le(a.timestamp);
    let f7 = text_field(a.binding_randomness);
    let f8 = text_field(a.binding_check_1);
    let f9 = text_field(a.binding_check_2);
    let s1 = s0 + f1;
    let s2 = s1 + f2;
    let s3 = s2 + f3;
    let s4 = s3 + f4;
    let s5 = s4 + f5;
    let s6 = s5 + f6;
    let s7 = s6 + f7;
    let s8 = s7 + f8;
    assert(b == s8 + f9);
    assert(b.subrange(0, b.len() as int) =~= b);
    lemma_field_at(b, s8, f9);
    lemma_field_at(b, s7, f8);
    lemma_field_at(b, s6, f7);
    lemma_field_at(b, s5, f6);
    lemma_field_at(b, s4, f5);
    lemma_field_at(b, s3, f4);
    lemma_field_at(b, s2, f3);
    lemma_field_at(b, s1, f2);
    lemma_field_at(b, s0, f1);
    assert(b[0] == s0[0]) by {
        assert(b.subrange(0, 1)[0] == s0[0]);
    }
    lemma_parse_text(b, s0.len() as int, a.prover_identifier);
    lemma_parse_text(b, s1.len() as int, a.model_commitment);
    lemma_parse_text(b, s2.len() as int, a.input_hash);
    lemma_parse_text(b, s3.len() as int, a.output_hash);
    lemma_parse_words(b, s4.len() as int, a.outputs);
    lemma_parse_u64(b, s5.len() as int, a.timestamp);
    lemma_parse_text(b, s6.len() as int, a.binding_randomness);
    lemma_parse_text(b, s7.len() as int, a.binding_check_1);
    lemma_parse_text(b, s8.len() as int, a.binding_check_2);
}

/// Reading back the bytes of an artifact gives the artifact.
pub proof fn lemma_artifact_round_trip(a: ArtifactView)
    requires
        artifact_fits(a),
    ensures
        parse_artifact(artifact_bytes(a)) == Some(a),
{
    lemma_artifact_fields(a);
}

fn push_text(out: &mut Vec<u8>, s: &String)
    ensures
        final(out)@ == old(out)@ + text_field(s@),
{
    reveal(text_field);
    let bytes = s.as_str().as_bytes();
    push_u64_le(out, bytes.len() as u64);
    push_bytes(out, bytes);
}

fn push_words(out: &mut Vec<u8>, w: &Vec<u32>)
    ensures
        final(out)@ == old(out)@ + words_field(w@),
{
    reveal(words_field);
    push_u64_le(out, w.len() as u64);
    let ghost mid = out@;
    let mut i: usize = 0;
    while i < w.len()
        invariant
            i <= w@.len(),
            out@ == mid + words_le(w@.subrange(0, i as int)),
        decreases w@.len() - i,
    {
        let ghost before = out@;
        push_u32_le(out, w[i]);
        i = i + 1;
        proof {
            let t = w@.subrange(0, i as int);
            let t0 = w@.subrange(0, i - 1);
            assert forall|j: int| 0 <= j < 4 * t.len() implies words_le(t)[j] == (words_le(t0)
                + u32_le(w@[i - 1]))[j] by {
                if j < 4 * (i - 1) {
                    assert(j / 4 < i - 1) by (nonlinear_arith)
                        requires
                            j < 4 * (i - 1),
                            0 <= j,
                    ;
                } else {
                    assert(j / 4 == i - 1 && j % 4 == j - 4 * (i - 1)) by (nonlinear_arith)
                        requires
                            4 * (i - 1) <= j < 4 * i,
                    ;
                }
            }
            assert(words_le(t) =~= words_le(t0) + u32_le(w@[i - 1]));
            assert(out@ =~= mid + words_le(t));
        }
    }
    assert(w@.subrange(0, w@.len() as int) =~= w@);
}

/// The bytes of an artifact in the layout above.
pub fn encode_artifact(a: &ProofArtifact) -> (r: Vec<u8>)
    ensures
        r@ == artifact_bytes(a@),
{
    let mut out: Vec<u8> = Vec::new();
    out.push(a.version);
    assert(out@ =~= seq![a.version]);
    push_text(&mut out, &a.prover_identifier);
    push_text(&mut out, &a.model_commitment);
    push_text(&mut out, &a.input_hash);
    push_text(&mut out, &a.output_hash);
    push_words(&mut out, &a.outputs);
    push_u64_le(&mut out, a.timestamp);
    push_text(&mut out, &a.binding_randomness);
    push_text(&mut out, &a.binding_check_1);
    push_text(&mut out, &a.binding_check_2);
    out
}

fn read_u64_field(b: &[u8], p: usize) -> (r: Option<(u64, usize)>)
    ensures
        match r {
            Some((v, q)) => parse_u64(b@, p as int) == Some((v, q as int)) && q == p + 8 && q
                <= b@.len(),
            None => parse_u64(b@, p as int) is None,
        },
{
    reveal(parse_u64);
    if p > b.len() || b.len() - p < 8 {
        None
    } else {
        Some((read_u64_le(b, p), p + 8))
    }
}

fn read_text(b: &[u8], p: usize) -> (r: Option<(String, usize)>)
    ensures
        match r {
            Some((s, q)) => parse_text(b@, p as int) == Some((s@, q as int)),
            None => parse_text(b@, p as int) is None,
        },
{
    reveal(parse_text);
    match read_u64_field(b, p) {
        None => None,
        Some((n, q)) => {
            if n > (b.len() - q) as u64 {
                None
            } else {
                let e = q + n as usize;
                match utf8_text(&b[q..e]) {
                    Some(s) => Some((s, e)),
                    None => None,
                }
            }
        },
    }
}

fn read_words(b: &[u8], p: usize) -> (r: Option<(Vec<u32>, usize)>)
    ensures
        match r {
            Some((w, q)) => parse_words(b@, p as int) == Some((w@, q as int)),
            None => parse_words(b@, p as int) is None,
        },
{
    reveal(parse_words);
    match read_u64_field(b, p) {
        None => None,
        Some((n, q)) => {
            let room = b.len() - q;
            if n > (room / 4) as u64 {
                proof {
                    assert(q + 4 * n > b@.len()) by (nonlinear_arith)
                        requires
                            n > room / 4,
                            room == b@.len() - q,
                            q <= b@.len(),
                    ;
                }
                None
            } else {
                proof {
                    assert(4 * n <= room) by (nonlinear_arith)
                        requires
                            n <= room / 4,
                    ;
                }
                let count = n as usize;
                let len = b.len();
                let mut out: Vec<u32> = Vec::new();
                let mut i: usize = 0;
                while i < count
                    invariant
                        i <= count,
                        count == n,
                        q + 4 * count <= len,
                        len == b@.len(),
                        out@ == Seq::new(i as nat, |k: int| u32_at(b@, q + 4 * k)),
                    decreases count - i,
                {
                    assert(4 * i + 4 <= 4 * count);
                    let x = read_u32_le(b, q + 4 * i);
                    out.push(x);
                    i = i + 1;
                    assert(out@ =~= Seq::new(i as nat, |k: int| u32_at(b@, q + 4 * k)));
                }
                Some((out, q + 4 * count))
            }
        },
    }
}

/// Reads an artifact from its bytes; `None` when they are not exactly one
/// artifact in the layout above.
pub fn decode_artifact(b: &[u8]) -> (r: Option<ProofArtifact>)
    ensures
        match r {
            Some(a) => parse_artifact(b@) == Some(a@),
            None => parse_artifact(b@) is None,
        },
{
    if b.len() == 0 {
        return None;
    }
    let (prover_identifier, p1) = match read_text(b, 1) {
        Some(x) => x,
        None => return None,
    };
    let (model_commitment, p2) = match read_text(b, p1) {
        Some(x) => x,
        None => return None,
    };
    let (input_hash, p3) = match read_text(b, p2) {
        Some(x) => x,
        None => return None,
    };
    let (output_hash, p4) = match read_text(b, p3) {
        Some(x) => x,
        None => return None,
    };
    let (outputs, p5) = match read_words(b, p4) {
        Some(x) => x,
        None => return None,
    };
    let (timestamp, p6) = match read_u64_field(b, p5) {
        Some(x) => x,
        None => return None,
    };
    let (binding_randomness, p7) = match read_text(b, p6) {
        Some(x) => x,
        None => return None,
    };
    let (binding_check_1, p8) = match read_text(b, p7) {
        Some(x) => x,
        None => return None,
    };
    let (binding_check_2, p9) = match read_text(b, p8) {
        Some(x) => x,
        None => return None,
    };
    if p9 != b.len() {
        return None;
    }
    Some(
        ProofArtifact {
            version: b[0],
            prover_identifier,
            model_commitment,
            input_hash,
            output_hash,
            outputs,
            timestamp,
            binding_randomness,
            binding_check_1,
            binding_check_2,
        },
    )
}

} // verus!
