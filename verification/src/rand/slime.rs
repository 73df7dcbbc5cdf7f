//! The slime-chunk predicate.
//!
//! A chunk is a slime chunk when the first draw of a 48-bit engine, seeded
//! from the world seed and the chunk's coordinates, is a multiple of ten.

use vstd::prelude::*;
use vstd::wrapping::i32_specs;
use vstd::wrapping::i64_specs;
use crate::rand::bedrock::legacy::{lcg_step, lemma_step_wrapping, scramble, MAGIC, MASK};

verus! {

/// The bits of a state that a 31-bit draw reads: bits 17 to 47.
pub const DRAW_MASK: u64 = 0xFFFF_FFFE_0000;

/// The seed of the engine that decides chunk `(x, z)` of world `seed`.
///
/// The four products are taken in 32 bits with wraparound, then widened; the
/// sum is taken in 64 bits with wraparound.
pub open spec fn chunk_seed(seed: i64, x: i32, z: i32) -> i64 {
    let a = i32_specs::signed_crop(i32_specs::signed_crop(x * x) * 0x4c1906);
    let b = i32_specs::signed_crop(x * 0x5ac0db);
    let c = i32_specs::signed_crop(i32_specs::signed_crop(z * z) * 0x4307a7);
    let d = i32_specs::signed_crop(z * 0x5f24f);
    i64_specs::signed_crop(seed + a + b + c + d) ^ 0x3ad8025f
}

/// The state of that engine after its one step.
pub open spec fn chunk_state(seed: i64, x: i32, z: i32) -> u64 {
    lcg_step(scramble(chunk_seed(seed, x, z)))
}

/// The division-based test on a state: its top 31 bits, as a number, are a
/// multiple of ten.
pub open spec fn favorable_by_division(state: u64) -> bool {
    (state as int / 0x2_0000) % 10 == 0
}

/// The shift-masked test on a state: with its low 17 bits cleared, it is a
/// multiple of ten times `2^17`.
pub open spec fn favorable_by_mask(state: u64) -> bool {
    (state & DRAW_MASK) % 0x14_0000 == 0
}

/// Whether chunk `(x, z)` of world `seed` is a slime chunk.
pub open spec fn is_slime(seed: i64, x: i32, z: i32) -> bool {
    favorable_by_division(chunk_state(seed, x, z))
}

/// The division-based and the shift-masked test agree on every engine state.
pub proof fn lemma_formulations_agree(state: u64)
    requires
        state <= MASK,
    ensures
        favorable_by_division(state) == favorable_by_mask(state),
{
    assert(state <= 0xFFFF_FFFF_FFFFu64 ==> (((state / 0x2_0000) % 10 == 0) <==> ((state
        & 0xFFFF_FFFE_0000) % 0x14_0000 == 0))) by (bit_vector);
}

/// The division-based and the shift-masked formulation of the predicate agree
/// on every seed and every chunk.
pub proof fn lemma_slime_formulations_agree(seed: i64, x: i32, z: i32)
    ensures
        is_slime(seed, x, z) == favorable_by_mask(chunk_state(seed, x, z)),
{
    lemma_formulations_agree(chunk_state(seed, x, z));
}

/// A wrapping 64-bit sum is the exact sum reduced into the signed range.
proof fn lemma_wrapping_add_is_crop(x: i64, y: i64)
    ensures
        x.wrapping_add(y) == i64_specs::signed_crop(x + y),
{
}

/// Reducing an addend first does not change the reduced sum.
proof fn lemma_crop_absorbs(a: int, b: int)
    ensures
        i64_specs::signed_crop(i64_specs::signed_crop(a) + b) == i64_specs::signed_crop(a + b),
{
}

/// The chunk seed, computed with wrapping machine arithmetic.
pub(crate) fn chunk_seed_of(seed: i64, x: i32, z: i32) -> (r: i64)
    ensures
        r == chunk_seed(seed, x, z),
{
    let a = x.wrapping_mul(x).wrapping_mul(0x4c1906);
    let b = x.wrapping_mul(0x5ac0db);
    let c = z.wrapping_mul(z).wrapping_mul(0x4307a7);
    let d = z.wrapping_mul(0x5f24f);

    let s1 = seed.wrapping_add(a as i64);
    let s2 = s1.wrapping_add(b as i64);
    let s3 = s2.wrapping_add(c as i64);
    let s4 = s3.wrapping_add(d as i64);
    proof {
        lemma_wrapping_add_is_crop(seed, a as i64);
        lemma_wrapping_add_is_crop(s1, b as i64);
        lemma_wrapping_add_is_crop(s2, c as i64);
        lemma_wrapping_add_is_crop(s3, d as i64);
        lemma_crop_absorbs(seed + a, b as int);
        lemma_crop_absorbs(seed + a + b, c as int);
        lemma_crop_absorbs(seed + a + b + c, d as int);
    }
    s4 ^ 0x3ad8025fi64
}

/// Whether chunk `(x, z)` of world `seed` is a slime chunk.
///
/// `x` and `z` are chunk coordinates: block coordinates divided by 16.
pub fn is_slimechunk(seed: i64, x: i32, z: i32) -> (r: bool)
    ensures
        r == is_slime(seed, x, z),
{
    is_slimechunk_inline(seed, x, z)
}

/// The predicate in its shift-masked formulation, which needs no shift of
/// the state and a single remainder.
#[inline(always)]
pub fn is_slimechunk_inline(seed: i64, x: i32, z: i32) -> (r: bool)
    ensures
        r == is_slime(seed, x, z),
{
    let seed = chunk_seed_of(seed, x, z);

    let start = ((#[verifier::truncate] (seed as u64)) ^ MAGIC) & MASK;
    let stepped = start.wrapping_mul(MAGIC).wrapping_add(0xB);
    let top = stepped & DRAW_MASK;
    proof {
        lemma_step_wrapping(start);
        assert(top == (stepped & 0xFFFF_FFFF_FFFFu64) & 0xFFFF_FFFE_0000u64) by (bit_vector)
            requires
                top == stepped & 0xFFFF_FFFE_0000u64,
        ;
        lemma_formulations_agree(lcg_step(start));
    }
    (top % 0x14_0000) == 0
}

} // verus!
