//! What this crate relies on of `java_rand::Random`, the generator of
//! `java.util.Random`: the same 48-bit engine as
//! [`Legacy`](crate::rand::bedrock::legacy::Legacy), with a bounded draw
//! that rejects and retries.

use vstd::prelude::*;
use crate::rand::bedrock::legacy::{draw, draw64, lcg_step, scramble};

verus! {

#[verifier::external_type_specification]
#[verifier::external_body]
pub struct ExRandom(java_rand::Random);

/// The 48-bit state of a generator.
pub uninterp spec fn random_state(r: java_rand::Random) -> u64;

/// What `Random::next_i32_bound` does to a generator in state `state` when
/// asked for a number below `max`: the number that it returns, and the state
/// that it leaves.
pub uninterp spec fn bounded_draw(state: u64, max: i32) -> (i32, u64);

/// Whether the bounded draw keeps the 31-bit draw `bits`: the draws at the
/// top of the range, which would make some remainders more likely than
/// others, are rejected.
pub open spec fn is_kept(bits: i32, max: i32) -> bool {
    bits - bits % max + (max - 1) <= i32::MAX
}

/// `Random::new`: the generator whose state is the scrambled seed.
pub assume_specification[ java_rand::Random::new ](seed: u64) -> (r: java_rand::Random)
    ensures
        random_state(r) == scramble(seed as i64),
;

/// `Random::next`: one step of the generator, of which the top `bits` bits
/// are returned. It panics when asked for more than 48 bits.
pub assume_specification[ java_rand::Random::next ](r: &mut java_rand::Random, bits: u8) -> (v: i32)
    requires
        bits <= 48,
    ensures
        random_state(*final(r)) == lcg_step(random_state(*old(r))),
        v == draw(random_state(*final(r)), bits),
;

/// `Random::next_i64`: two draws of 32 bits, the first shifted into the
/// upper half and the second added with wraparound.
pub assume_specification[ java_rand::Random::next_i64 ](r: &mut java_rand::Random) -> (v: i64)
    ensures
        random_state(*final(r)) == lcg_step(lcg_step(random_state(*old(r)))),
        v == draw64(random_state(*old(r))),
;

/// `Random::next_i32_bound`: a number from 0 up to, and without, `max`. It
/// panics where `max` is not positive. Where `max` is a power of two, the
/// number is the first 31-bit draw times `max`, divided by `2^31`, and the
/// generator has made one step. Where `max` is no power of two and the first
/// 31-bit draw is kept, the number is that draw's remainder and the
/// generator has made one step; otherwise it draws again.
pub assume_specification[ java_rand::Random::next_i32_bound ](
    r: &mut java_rand::Random,
    max: i32,
) -> (v: i32)
    requires
        max > 0,
    ensures
        0 <= v < max,
        (v, random_state(*final(r))) == bounded_draw(random_state(*old(r)), max),
        ({
            let next = lcg_step(random_state(*old(r)));
            let bits = draw(next, 31);
            &&& !is_power_of_two(max) && is_kept(bits, max) ==> v == bits % max && random_state(
                *final(r),
            ) == next
            &&& is_power_of_two(max) ==> v == (max * bits) / 0x8000_0000 && random_state(
                *final(r),
            ) == next
        }),
;

/// Whether a positive number is a power of two.
pub open spec fn is_power_of_two(max: i32) -> bool {
    (max as u32) & ((max - 1) as u32) == 0
}

} // verus!
