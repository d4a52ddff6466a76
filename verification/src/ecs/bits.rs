use vstd::prelude::*;

verus! {

/// Bit `k` of a machine word, for `0 <= k < 64`.
pub open spec fn word_bit(word: u64, k: int) -> bool {
    0 <= k < 64 && word & (1u64 << (k as usize)) != 0
}

/// Bit `i` of a sequence of words laid out one after another, low bits first.
pub open spec fn seq_bit(words: Seq<u64>, i: int) -> bool {
    0 <= i && i / 64 < words.len() && word_bit(words[i / 64], i % 64)
}

pub proof fn lemma_zero_word_has_no_bits(k: int)
    ensures
        !word_bit(0u64, k),
{
    if 0 <= k < 64 {
        let kk = k as usize;
        assert(0u64 & (1u64 << kk) == 0u64) by (bit_vector);
    }
}

pub proof fn lemma_set_bit(w: u64, k: usize, b: int)
    requires
        k < 64,
    ensures
        word_bit(w | (1u64 << k), b) == (word_bit(w, b) || b == k),
{
    if 0 <= b < 64 {
        let bb = b as usize;
        assert(((w | (1u64 << k)) & (1u64 << bb) != 0u64) == ((w & (1u64 << bb)
            != 0u64) || bb == k)) by (bit_vector)
            requires
                k < 64usize,
                bb < 64usize,
        ;
    }
}

pub proof fn lemma_clear_bit(w: u64, k: usize, b: int)
    requires
        k < 64,
    ensures
        word_bit(w & !(1u64 << k), b) == (word_bit(w, b) && b != k),
{
    if 0 <= b < 64 {
        let bb = b as usize;
        assert(((w & !(1u64 << k)) & (1u64 << bb) != 0u64) == ((w & (1u64 << bb)
            != 0u64) && bb != k)) by (bit_vector)
            requires
                k < 64usize,
                bb < 64usize,
        ;
    }
}

/// The value `w & (1 << k)` is nonzero exactly when bit `k` is set.
pub proof fn lemma_masked_bit(w: u64, k: usize)
    requires
        k < 64,
    ensures
        (w & (1u64 << k) != 0u64) == word_bit(w, k as int),
{
}

pub proof fn lemma_and_bit(a: u64, b: u64, k: usize)
    requires
        k < 64,
    ensures
        word_bit(a & b, k as int) == (word_bit(a, k as int) && word_bit(b, k as int)),
{
    assert(((a & b) & (1u64 << k) != 0u64) == ((a & (1u64 << k) != 0u64) && (b & (1u64 << k)
        != 0u64))) by (bit_vector)
        requires
            k < 64usize,
    ;
}

pub proof fn lemma_or_nonzero(a: u64, b: u64)
    ensures
        ((a | b) != 0u64) == (a != 0u64 || b != 0u64),
{
    assert(((a | b) != 0u64) == (a != 0u64 || b != 0u64)) by (bit_vector);
}

/// Bit `k` of a 32-bit word, for `0 <= k < 32`.
pub open spec fn word32_bit(word: u32, k: int) -> bool {
    0 <= k < 32 && word & (1u32 << (k as usize)) != 0
}

/// Bit `k` of a 16-bit word, for `0 <= k < 16`.
pub open spec fn word16_bit(word: u16, k: int) -> bool {
    0 <= k < 16 && word & (1u16 << (k as usize)) != 0
}

pub proof fn lemma_zero_word32_has_no_bits(k: int)
    ensures
        !word32_bit(0u32, k),
{
    if 0 <= k < 32 {
        let kk = k as usize;
        assert(0u32 & (1u32 << kk) == 0u32) by (bit_vector);
    }
}

pub proof fn lemma_zero_word16_has_no_bits(k: int)
    ensures
        !word16_bit(0u16, k),
{
    if 0 <= k < 16 {
        let kk = k as usize;
        assert(0u16 & (1u16 << kk) == 0u16) by (bit_vector);
    }
}

pub proof fn lemma_set_bit32(w: u32, k: usize, b: int)
    requires
        k < 32,
    ensures
        word32_bit(w | (1u32 << k), b) == (word32_bit(w, b) || b == k),
{
    if 0 <= b < 32 {
        let bb = b as usize;
        assert(((w | (1u32 << k)) & (1u32 << bb) != 0u32) == ((w & (1u32 << bb) != 0u32)
            || bb == k)) by (bit_vector)
            requires
                k < 32usize,
                bb < 32usize,
        ;
    }
}

pub proof fn lemma_clear_bit32(w: u32, k: usize, b: int)
    requires
        k < 32,
    ensures
        word32_bit(w & !(1u32 << k), b) == (word32_bit(w, b) && b != k),
{
    if 0 <= b < 32 {
        let bb = b as usize;
        assert(((w & !(1u32 << k)) & (1u32 << bb) != 0u32) == ((w & (1u32 << bb) != 0u32)
            && bb != k)) by (bit_vector)
            requires
                k < 32usize,
                bb < 32usize,
        ;
    }
}

pub proof fn lemma_set_bit16(w: u16, k: usize, b: int)
    requires
        k < 16,
    ensures
        word16_bit(w | (1u16 << k), b) == (word16_bit(w, b) || b == k),
{
    if 0 <= b < 16 {
        let bb = b as usize;
        assert(((w | (1u16 << k)) & (1u16 << bb) != 0u16) == ((w & (1u16 << bb) != 0u16)
            || bb == k)) by (bit_vector)
            requires
                k < 16usize,
                bb < 16usize,
        ;
    }
}

} // verus!
