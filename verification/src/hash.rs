//! Integer hashing of seeds and lattice coordinates.
//!
//! Every pseudo-random quantity of the terrain is the hash of an integer, so
//! a seed and a lattice coordinate always give the same value. The hash of one
//! word is a permutation of the 32-bit words; the hash of a lattice coordinate
//! is a permutation in each of its three arguments, so coordinates of opposite
//! sign, or two different seeds, never share a hash while the other arguments
//! are held fixed.

use vstd::prelude::*;

verus! {

/// The word that is mixed into the input before the first multiplication.
pub const MIX_XOR: u32 = 0xA3C5_9AC3;

/// The odd multiplier of the three mixing rounds.
pub const MIX_MUL: u32 = 0x9E37_79B9;

/// The inverse of `MIX_MUL` modulo 2^32.
pub const MIX_MUL_INVERSE: u32 = 0x144C_BC89;

/// Folds the high half of a word onto its low half. Applying it twice gives
/// the word back.
pub open spec fn fold_high(x: u32) -> u32 {
    x ^ (x >> 16)
}

/// The hash of one word: three rounds of multiplication by `MIX_MUL`, the
/// first after mixing in `MIX_XOR`, the other two after folding.
pub open spec fn spec_khash(x: u32) -> u32 {
    let a = (x ^ MIX_XOR).wrapping_mul(MIX_MUL);
    let b = fold_high(a).wrapping_mul(MIX_MUL);
    fold_high(b).wrapping_mul(MIX_MUL)
}

/// The word whose hash is `h`: the rounds of `spec_khash` undone in reverse.
pub open spec fn spec_unhash(h: u32) -> u32 {
    let b = fold_high(h.wrapping_mul(MIX_MUL_INVERSE));
    let a = fold_high(b.wrapping_mul(MIX_MUL_INVERSE));
    a.wrapping_mul(MIX_MUL_INVERSE) ^ MIX_XOR
}

/// A signed lattice coordinate as a 32-bit word in two's complement.
pub open spec fn lattice_word(v: i32) -> u32 {
    if v >= 0 {
        v as u32
    } else {
        (v + 0x1_0000_0000) as u32
    }
}

/// The hash of a lattice coordinate under a seed: the seed is hashed, then
/// each coordinate is mixed in and the result hashed again, `y` before `x`.
pub open spec fn spec_khash2i(x: i32, y: i32, seed: u32) -> u32 {
    spec_khash(lattice_word(x) ^ spec_khash(lattice_word(y) ^ spec_khash(seed)))
}

proof fn lemma_round_inverse(a: u32)
    ensures
        a.wrapping_mul(MIX_MUL).wrapping_mul(MIX_MUL_INVERSE) == a,
        a.wrapping_mul(MIX_MUL_INVERSE).wrapping_mul(MIX_MUL) == a,
        fold_high(fold_high(a)) == a,
        (a ^ MIX_XOR) ^ MIX_XOR == a,
{
    assert(((((a * 0x9E37_79B9u32) % 0x1_0000_0000) as u32 * 0x144C_BC89u32) % 0x1_0000_0000) as u32
        == a) by (bit_vector);
    assert(((((a * 0x144C_BC89u32) % 0x1_0000_0000) as u32 * 0x9E37_79B9u32) % 0x1_0000_0000) as u32
        == a) by (bit_vector);
    assert((a ^ (a >> 16)) ^ ((a ^ (a >> 16)) >> 16) == a) by (bit_vector);
    assert((a ^ 0xA3C5_9AC3u32) ^ 0xA3C5_9AC3u32 == a) by (bit_vector);
}

proof fn lemma_mix_cancels(a: u32, b: u32, m: u32)
    requires
        a ^ m == b ^ m,
    ensures
        a == b,
{
    assert(a == b) by (bit_vector)
        requires
            a ^ m == b ^ m,
    ;
}

proof fn lemma_lattice_word_cast(v: i32)
    ensures
        lattice_word(v) == v as u32,
{
    assert(v >= 0 ==> v as u32 == v) by (bit_vector);
    assert(v < 0 ==> v as u32 == v + 0x1_0000_0000) by (bit_vector);
}

/// Hashing is a permutation of the 32-bit words: `spec_unhash` undoes
/// `spec_khash`, and `spec_khash` undoes `spec_unhash`.
pub proof fn khash_is_permutation(x: u32)
    ensures
        spec_unhash(spec_khash(x)) == x,
        spec_khash(spec_unhash(x)) == x,
{
    let a = (x ^ MIX_XOR).wrapping_mul(MIX_MUL);
    let b = fold_high(a).wrapping_mul(MIX_MUL);
    let h = fold_high(b).wrapping_mul(MIX_MUL);
    lemma_round_inverse(fold_high(b));
    lemma_round_inverse(b);
    lemma_round_inverse(fold_high(a));
    lemma_round_inverse(a);
    lemma_round_inverse(x ^ MIX_XOR);
    lemma_round_inverse(x);
    assert(spec_unhash(h) == x);

    let q = x.wrapping_mul(MIX_MUL_INVERSE);
    let r = fold_high(q).wrapping_mul(MIX_MUL_INVERSE);
    let s = fold_high(r).wrapping_mul(MIX_MUL_INVERSE);
    lemma_round_inverse(s);
    lemma_round_inverse(fold_high(r));
    lemma_round_inverse(r);
    lemma_round_inverse(fold_high(q));
    lemma_round_inverse(q);
    assert(spec_khash(s ^ MIX_XOR) == x);
}

/// Two words with the same hash are the same word.
pub proof fn khash_injective(a: u32, b: u32)
    requires
        spec_khash(a) == spec_khash(b),
    ensures
        a == b,
{
    khash_is_permutation(a);
    khash_is_permutation(b);
}

/// Two lattice coordinates with the same word are the same coordinate: a
/// negative coordinate never shares its word with a positive one.
pub proof fn lattice_word_injective(a: i32, b: i32)
    requires
        lattice_word(a) == lattice_word(b),
    ensures
        a == b,
{
}

/// With `y` and the seed held fixed, different `x` give different hashes.
pub proof fn khash2i_injective_in_x(x1: i32, x2: i32, y: i32, seed: u32)
    requires
        spec_khash2i(x1, y, seed) == spec_khash2i(x2, y, seed),
    ensures
        x1 == x2,
{
    let inner = spec_khash(lattice_word(y) ^ spec_khash(seed));
    khash_injective(lattice_word(x1) ^ inner, lattice_word(x2) ^ inner);
    lemma_mix_cancels(lattice_word(x1), lattice_word(x2), inner);
}

/// With `x` and the seed held fixed, different `y` give different hashes.
pub proof fn khash2i_injective_in_y(x: i32, y1: i32, y2: i32, seed: u32)
    requires
        spec_khash2i(x, y1, seed) == spec_khash2i(x, y2, seed),
    ensures
        y1 == y2,
{
    let s = spec_khash(seed);
    let i1 = spec_khash(lattice_word(y1) ^ s);
    let i2 = spec_khash(lattice_word(y2) ^ s);
    khash_injective(lattice_word(x) ^ i1, lattice_word(x) ^ i2);
    assert(i1 == i2) by (bit_vector)
        requires
            lattice_word(x) ^ i1 == lattice_word(x) ^ i2,
    ;
    khash_injective(lattice_word(y1) ^ s, lattice_word(y2) ^ s);
    lemma_mix_cancels(lattice_word(y1), lattice_word(y2), s);
}

/// With the coordinate held fixed, different seeds give different hashes.
pub proof fn khash2i_injective_in_seed(x: i32, y: i32, seed1: u32, seed2: u32)
    requires
        spec_khash2i(x, y, seed1) == spec_khash2i(x, y, seed2),
    ensures
        seed1 == seed2,
{
    let s1 = spec_khash(seed1);
    let s2 = spec_khash(seed2);
    let i1 = spec_khash(lattice_word(y) ^ s1);
    let i2 = spec_khash(lattice_word(y) ^ s2);
    khash_injective(lattice_word(x) ^ i1, lattice_word(x) ^ i2);
    assert(i1 == i2) by (bit_vector)
        requires
            lattice_word(x) ^ i1 == lattice_word(x) ^ i2,
    ;
    khash_injective(lattice_word(y) ^ s1, lattice_word(y) ^ s2);
    assert(s1 == s2) by (bit_vector)
        requires
            lattice_word(y) ^ s1 == lattice_word(y) ^ s2,
    ;
    khash_injective(seed1, seed2);
}

/// Hashes one word.
pub fn khash(x: u32) -> (h: u32)
    ensures
        h == spec_khash(x),
{
    let a = (x ^ MIX_XOR).wrapping_mul(MIX_MUL);
    let b = (a ^ (a >> 16)).wrapping_mul(MIX_MUL);
    (b ^ (b >> 16)).wrapping_mul(MIX_MUL)
}

/// Hashes a lattice coordinate under a seed.
pub fn khash2i(x: i32, y: i32, seed: u32) -> (h: u32)
    ensures
        h == spec_khash2i(x, y, seed),
{
    proof {
        lemma_lattice_word_cast(x);
        lemma_lattice_word_cast(y);
    }
    let xw = #[verifier::truncate] (x as u32);
    let yw = #[verifier::truncate] (y as u32);
    khash(xw ^ khash(yw ^ khash(seed)))
}

} // verus!
