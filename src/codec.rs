//! Little-endian integer layouts and the byte image of a sequence of 32-bit words.

use vstd::prelude::*;

verus! {

/// The four little-endian bytes of a 32-bit word.
pub open spec fn u32_le(x: u32) -> Seq<u8> {
    seq![x as u8, (x >> 8) as u8, (x >> 16) as u8, (x >> 24) as u8]
}

/// The eight little-endian bytes of a 64-bit word.
pub open spec fn u64_le(x: u64) -> Seq<u8> {
    seq![
        x as u8,
        (x >> 8) as u8,
        (x >> 16) as u8,
        (x >> 24) as u8,
        (x >> 32) as u8,
        (x >> 40) as u8,
        (x >> 48) as u8,
        (x >> 56) as u8,
    ]
}

/// The 32-bit word stored little-endian at `b[p..p + 4]`.
pub open spec fn u32_at(b: Seq<u8>, p: int) -> u32 {
    (b[p] as u32) | ((b[p + 1] as u32) << 8) | ((b[p + 2] as u32) << 16) | ((b[p + 3] as u32)
        << 24)
}

/// The 64-bit word stored little-endian at `b[p..p + 8]`.
pub open spec fn u64_at(b: Seq<u8>, p: int) -> u64 {
    (b[p] as u64) | ((b[p + 1] as u64) << 8) | ((b[p + 2] as u64) << 16) | ((b[p + 3] as u64)
        << 24) | ((b[p + 4] as u64) << 32) | ((b[p + 5] as u64) << 40) | ((b[p + 6] as u64) << 48)
        | ((b[p + 7] as u64) << 56)
}

/// The little-endian bytes of each word, one word after another.
pub open spec fn words_le(w: Seq<u32>) -> Seq<u8> {
    Seq::new(4 * w.len(), |j: int| u32_le(w[j / 4])[j % 4])
}

pub(crate) proof fn lemma_u32_round_trip(x: u32, b0: u8, b1: u8, b2: u8, b3: u8)
    requires
        b0 == x as u8,
        b1 == (x >> 8) as u8,
        b2 == (x >> 16) as u8,
        b3 == (x >> 24) as u8,
    ensures
        x == (b0 as u32) | ((b1 as u32) << 8) | ((b2 as u32) << 16) | ((b3 as u32) << 24),
{
    assert(x == ((x as u8) as u32) | ((((x >> 8) as u8) as u32) << 8) | ((((x >> 16) as u8) as u32) << 16) | ((((x >> 24) as u8) as u32) << 24)) by (bit_vector);
}

pub(crate) proof fn lemma_u64_round_trip(x: u64, b: Seq<u8>, p: int)
    requires
        0 <= p,
        p + 8 <= b.len(),
        b.subrange(p, p + 8) == u64_le(x),
    ensures
        u64_at(b, p) == x,
{
    assert(b[p] == b.subrange(p, p + 8)[0]);
    assert(b[p + 1] == b.subrange(p, p + 8)[1]);
    assert(b[p + 2] == b.subrange(p, p + 8)[2]);
    assert(b[p + 3] == b.subrange(p, p + 8)[3]);
    assert(b[p + 4] == b.subrange(p, p + 8)[4]);
    assert(b[p + 5] == b.subrange(p, p + 8)[5]);
    assert(b[p + 6] == b.subrange(p, p + 8)[6]);
    assert(b[p + 7] == b.subrange(p, p + 8)[7]);
    assert(x == ((x as u8) as u64) | ((((x >> 8) as u8) as u64) << 8) | ((((x >> 16) as u8) as u64) << 16) | ((((x >> 24) as u8) as u64) << 24) | ((((x >> 32) as u8) as u64) << 32) | ((((x >> 40) as u8) as u64) << 40) | ((((x >> 48) as u8) as u64) << 48) | ((((x >> 56) as u8) as u64) << 56)) by (bit_vector);
}

/// The four bytes of a word determine it.
pub proof fn lemma_u32_le_injective(x: u32, y: u32)
    requires
        u32_le(x) == u32_le(y),
    ensures
        x == y,
{
    assert(u32_le(x)[0] == u32_le(y)[0]);
    assert(u32_le(x)[1] == u32_le(y)[1]);
    assert(u32_le(x)[2] == u32_le(y)[2]);
    assert(u32_le(x)[3] == u32_le(y)[3]);
    lemma_u32_round_trip(x, x as u8, (x >> 8) as u8, (x >> 16) as u8, (x >> 24) as u8);
    lemma_u32_round_trip(y, x as u8, (x >> 8) as u8, (x >> 16) as u8, (x >> 24) as u8);
}

/// Writes the little-endian bytes of `x` after the end of `out`.
pub fn push_u32_le(out: &mut Vec<u8>, x: u32)
    ensures
        final(out)@ == old(out)@ + u32_le(x),
{
    out.push(x as u8);
    out.push((x >> 8) as u8);
    out.push((x >> 16) as u8);
    out.push((x >> 24) as u8);
    assert(final(out)@ =~= old(out)@ + u32_le(x));
}

/// Writes the little-endian bytes of `x` after the end of `out`.
pub fn push_u64_le(out: &mut Vec<u8>, x: u64)
    ensures
        final(out)@ == old(out)@ + u64_le(x),
{
    out.push(x as u8);
    out.push((x >> 8) as u8);
    out.push((x >> 16) as u8);
    out.push((x >> 24) as u8);
    out.push((x >> 32) as u8);
    out.push((x >> 40) as u8);
    out.push((x >> 48) as u8);
    out.push((x >> 56) as u8);
    assert(final(out)@ =~= old(out)@ + u64_le(x));
}

/// The word stored little-endian at `b[p..p + 4]`.
pub fn read_u32_le(b: &[u8], p: usize) -> (r: u32)
    requires
        p + 4 <= b@.len(),
    ensures
        r == u32_at(b@, p as int),
{
    (b[p] as u32) | ((b[p + 1] as u32) << 8) | ((b[p + 2] as u32) << 16) | ((b[p + 3] as u32)
        << 24)
}

/// The word stored little-endian at `b[p..p + 8]`.
pub fn read_u64_le(b: &[u8], p: usize) -> (r: u64)
    requires
        p + 8 <= b@.len(),
    ensures
        r == u64_at(b@, p as int),
{
    (b[p] as u64) | ((b[p + 1] as u64) << 8) | ((b[p + 2] as u64) << 16) | ((b[p + 3] as u64)
        << 24) | ((b[p + 4] as u64) << 32) | ((b[p + 5] as u64) << 40) | ((b[p + 6] as u64) << 48)
        | ((b[p + 7] as u64) << 56)
}

/// Appends every byte of `b` to `out`.
pub fn push_bytes(out: &mut Vec<u8>, b: &[u8])
    ensures
        final(out)@ == old(out)@ + b@,
{
    let ghost start = out@;
    let mut i: usize = 0;
    while i < b.len()
        invariant
            i <= b@.len(),
            out@ == start + b@.subrange(0, i as int),
        decreases b@.len() - i,
    {
        out.push(b[i]);
        i = i + 1;
        assert(out@ =~= start + b@.subrange(0, i as int));
    }
    assert(b@.subrange(0, b@.len() as int) =~= b@);
}

/// The little-endian bytes of every word of `w`, in order.
pub fn words_to_le_bytes(w: &[u32]) -> (r: Vec<u8>)
    ensures
        r@ == words_le(w@),
{
    let mut out: Vec<u8> = Vec::new();
    let mut i: usize = 0;
    while i < w.len()
        invariant
            i <= w@.len(),
            out@ == words_le(w@.subrange(0, i as int)),
        decreases w@.len() - i,
    {
        let ghost before = out@;
        push_u32_le(&mut out, w[i]);
        i = i + 1;
        proof {
            let s = w@.subrange(0, i as int);
            assert forall|j: int| 0 <= j < 4 * s.len() implies out@[j] == words_le(s)[j] by {
                if j < 4 * (i - 1) {
                    assert(words_le(w@.subrange(0, i - 1))[j] == before[j]);
                    assert(j / 4 < i - 1) by (nonlinear_arith) requires j < 4 * (i - 1), 0 <= j;
                } else {
                    assert(j / 4 == i - 1 && j % 4 == j - 4 * (i - 1)) by (nonlinear_arith)
                        requires 4 * (i - 1) <= j < 4 * i;
                }
            }
            assert(out@ =~= words_le(s));
        }
    }
    assert(w@.subrange(0, w@.len() as int) =~= w@);
    out
}

/// Different word sequences have different byte images.
pub proof fn lemma_words_le_injective(a: Seq<u32>, b: Seq<u32>)
    requires
        words_le(a) == words_le(b),
    ensures
        a == b,
{
    assert(words_le(a).len() == 4 * a.len());
    assert(words_le(b).len() == 4 * b.len());
    assert(a.len() == b.len());
    assert forall|i: int| 0 <= i < a.len() implies a[i] == b[i] by {
        assert forall|k: int| 0 <= k < 4 implies u32_le(a[i])[k] == u32_le(b[i])[k] by {
            let j = 4 * i + k;
            assert(j / 4 == i && j % 4 == k && 0 <= j < 4 * a.len()) by (nonlinear_arith)
                requires
                    j == 4 * i + k,
                    0 <= k < 4,
                    0 <= i < a.len(),
            ;
            assert(words_le(a)[j] == u32_le(a[j / 4])[j % 4]);
            assert(words_le(b)[j] == u32_le(b[j / 4])[j % 4]);
            assert(words_le(a)[j] == words_le(b)[j]);
        }
        assert(u32_le(a[i]) =~= u32_le(b[i]));
        lemma_u32_le_injective(a[i], b[i]);
    }
    assert(a =~= b);
}

} // verus!
