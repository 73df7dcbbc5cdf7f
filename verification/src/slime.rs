//! The slime-chunk predicate as the game computes it: with the bounded draw
//! of `java.util.Random`.

use vstd::prelude::*;
use crate::rand::bedrock::legacy::{draw, lemma_draw_range, lemma_step_is_state, scramble};
use crate::rand::java::{bounded_draw, is_kept, is_power_of_two};
use crate::rand::slime::{chunk_seed, chunk_seed_of, chunk_state, is_slime};

verus! {

/// The first 31-bit draw of the engine of chunk `(x, z)`.
pub open spec fn first_draw(seed: i64, x: i32, z: i32) -> i32 {
    draw(chunk_state(seed, x, z), 31)
}

/// A 31-bit draw is the state divided by `2^17`.
proof fn lemma_first_draw(state: u64)
    requires
        state <= 0xFFFF_FFFF_FFFF,
    ensures
        draw(state, 31) as int == state as int / 0x2_0000,
        0 <= draw(state, 31),
{
    lemma_draw_range(state, 31);
    let d = state >> 17u64;
    assert(d == state / 0x2_0000) by (bit_vector)
        requires
            d == state >> 17u64,
    ;
}

/// Ten is no power of two, and a seed goes through the unsigned type
/// unchanged.
proof fn lemma_seed_round_trip(seed: i64)
    ensures
        !is_power_of_two(10),
        scramble(((seed as u64) as i64)) == scramble(seed),
{
    assert(10u32 & 9u32 != 0) by (bit_vector);
    let u = seed as u64;
    assert(((u as i64) as u64) == u) by (bit_vector);
}

/// Whether chunk `(x, z)` of world `seed` is a slime chunk: the engine of
/// the chunk, asked for a number below ten, gives zero.
///
/// The bounded draw keeps its first draw unless that is one of the eight
/// greatest of the `2^31`; where it keeps it, the answer is that of
/// [`is_slimechunk`](crate::rand::slime::is_slimechunk), which always goes
/// by the first draw.
pub fn is_slimechunk(seed: i64, x: i32, z: i32) -> (r: bool)
    ensures
        r == (bounded_draw(scramble(chunk_seed(seed, x, z)), 10).0 == 0),
        is_kept(first_draw(seed, x, z), 10) ==> r == is_slime(seed, x, z),
{
    let mixed = chunk_seed_of(seed, x, z);

    let mut rnd = java_rand::Random::new(#[verifier::truncate] (mixed as u64));
    proof {
        lemma_seed_round_trip(mixed);
        lemma_step_is_state(scramble(mixed));
        lemma_first_draw(chunk_state(seed, x, z));
    }
    let n = rnd.next_i32_bound(10);
    n == 0
}

} // verus!
