//! The 48-bit linear-congruential engine.

use vstd::prelude::*;
use vstd::wrapping::i64_specs;
use crate::rand::bedrock::util::{position_seed, position_seed_of, BedrockRandom};
use crate::util::point::Point3D;

verus! {

/// Multiplier of the linear-congruential step.
pub const MAGIC: u64 = 0x5DEECE66D;

/// The low 48 bits: every engine state lies under this mask.
pub const MASK: u64 = 0xFFFF_FFFF_FFFF;

/// Increment of the linear-congruential step.
pub const INCREMENT: u64 = 0xB;

/// The initial state that a seed gives: the seed's low 48 bits, scrambled
/// with the multiplier.
pub open spec fn scramble(seed: i64) -> u64 {
    ((seed as u64) ^ MAGIC) & MASK
}

/// One step of the generator: `state * MAGIC + INCREMENT` modulo `2^48`.
pub open spec fn lcg_step(state: u64) -> u64 {
    ((state as int * MAGIC as int + INCREMENT as int) % 0x1_0000_0000_0000) as u64
}

/// The state after `n` steps.
pub open spec fn lcg_steps(state: u64, n: nat) -> u64
    decreases n,
{
    if n == 0 {
        state
    } else {
        lcg_step(lcg_steps(state, (n - 1) as nat))
    }
}

/// Whether `state` is a valid engine state.
pub open spec fn is_state(state: u64) -> bool {
    state <= MASK
}

/// The draw that a state yields: its top `bits` bits, read as a signed
/// 32-bit integer (only the low 32 bits of the shifted state are kept).
pub open spec fn draw(state: u64, bits: u8) -> i32
    recommends
        bits <= 48,
{
    (state >> ((48 - bits) as u64)) as i32
}

pub proof fn lemma_step_is_state(state: u64)
    ensures
        is_state(lcg_step(state)),
{
}

/// The step computed with 64-bit wraparound and a mask is the step modulo
/// `2^48`.
pub proof fn lemma_step_wrapping(state: u64)
    ensures
        state.wrapping_mul(MAGIC).wrapping_add(INCREMENT) & MASK == lcg_step(state),
{
    let p = state as int * MAGIC as int;
    let m = state.wrapping_mul(MAGIC);
    let a = m.wrapping_add(INCREMENT);
    let q = p / 0x1_0000_0000_0000_0000;
    let c: int = if m + INCREMENT > u64::MAX {
        1
    } else {
        0
    };
    assert(m as int == p - q * 0x1_0000_0000_0000_0000) by {
        vstd::arithmetic::div_mod::lemma_fundamental_div_mod(p, 0x1_0000_0000_0000_0000);
    }
    assert(a as int == m + INCREMENT - c * 0x1_0000_0000_0000_0000);
    assert(a & MASK == a % 0x1_0000_0000_0000) by (bit_vector);
    let k = -(q + c) * 0x1_0000;
    assert(a as int == 0x1_0000_0000_0000 * k + (p + INCREMENT));
    vstd::arithmetic::div_mod::lemma_mod_multiples_vanish(k, p + INCREMENT, 0x1_0000_0000_0000);
}

/// `2^bits`, for fewer than 64 bits.
pub open spec fn pow2_of(bits: u8) -> int {
    (1u64 << (bits as u64)) as int
}

/// A draw of at most 31 bits is a number from 0 up to, and without,
/// `2^bits`: the state shifted right, its upper bits being zero.
pub proof fn lemma_draw_range(state: u64, bits: u8)
    requires
        is_state(state),
        bits <= 31,
    ensures
        0 <= draw(state, bits) < pow2_of(bits),
        draw(state, bits) == state >> ((48 - bits) as u64),
{
    let sh = (48 - bits) as u64;
    let b = bits as u64;
    let d = state >> sh;
    assert(d < 0x8000_0000 && d < (1u64 << b)) by (bit_vector)
        requires
            d == state >> sh,
            sh == 48 - b,
            b <= 31,
            state <= 0xFFFF_FFFF_FFFFu64,
    ;
    assert(d as i32 == d);
}

/// The 64-bit value that two successive 32-bit draws make: the first in the
/// upper half, the second added to it with wraparound.
pub open spec fn draw64(state: u64) -> i64 {
    let s1 = lcg_step(state);
    let s2 = lcg_step(s1);
    i64_specs::signed_crop(draw(s1, 32) * 0x1_0000_0000 + draw(s2, 32))
}

/// The 32-bit checksum of a label: `hash = 31 * hash + byte` over its bytes,
/// with unsigned wraparound.
pub open spec fn label_hash(s: Seq<u8>) -> u32
    decreases s.len(),
{
    if s.len() == 0 {
        0
    } else {
        ((31 * label_hash(s.drop_last()) + s.last()) % 0x1_0000_0000) as u32
    }
}

/// The state of the engine that `seed` and `label` give: the first 64-bit
/// draw of the engine of `seed`, xored with the label's checksum, as a seed.
pub open spec fn hashed_state(seed: i64, label: Seq<u8>) -> u64 {
    scramble(draw64(scramble(seed)) ^ (label_hash(label) as i64))
}

/// The state of the engine that an engine in state `state` yields at block
/// `p`.
pub open spec fn state_at(state: u64, p: Point3D) -> u64 {
    scramble(position_seed(p) ^ (state as i64))
}

/// Java's `String.hashCode` over a byte label. Labels are ASCII, so bytes
/// and characters coincide.
pub fn java_string_hash(s: &[u8]) -> (r: u32)
    ensures
        r == label_hash(s@),
{
    let mut hash: u32 = 0;
    let mut i: usize = 0;
    while i < s.len()
        invariant
            i <= s.len(),
            hash == label_hash(s@.take(i as int)),
        decreases s.len() - i,
    {
        let c = s[i];
        proof {
            assert(s@.take(i + 1).drop_last() == s@.take(i as int));
        }
        hash = 31u32.wrapping_mul(hash).wrapping_add(c as u32);
        i += 1;
    }
    proof {
        assert(s@.take(i as int) == s@);
    }
    hash
}

/// The engine that `seed` and the label `s` give.
pub fn init_hash(seed: i64, s: &[u8]) -> (r: Legacy)
    ensures
        r.state() == hashed_state(seed, s@),
{
    let mut seeder = Legacy::new(seed);
    let seed = seeder.next64() ^ (java_string_hash(s) as i64);
    Legacy::new(seed)
}

/// The 48-bit linear-congruential engine.
#[derive(Clone, Copy, Debug)]
pub struct Legacy {
    seed: u64,
}

impl Legacy {
    /// The engine's state: a number below `2^48`.
    pub closed spec fn state(self) -> u64 {
        self.seed
    }

    #[verifier::type_invariant]
    spec fn inv(self) -> bool {
        is_state(self.seed)
    }

    /// The engine of `seed`.
    pub fn new(seed: i64) -> (r: Self)
        ensures
            r.state() == scramble(seed),
            is_state(r.state()),
    {
        let s = ((#[verifier::truncate] (seed as u64)) ^ MAGIC) & MASK;
        assert(s <= MASK) by (bit_vector)
            requires
                s == ((#[verifier::truncate] (seed as u64)) ^ MAGIC) & MASK,
        ;
        Self { seed: s }
    }

    /// Steps the engine and returns the top `bits` bits of its new state.
    pub fn next(&mut self, bits: u8) -> (r: i32)
        requires
            bits <= 48,
        ensures
            final(self).state() == lcg_step(old(self).state()),
            is_state(final(self).state()),
            r == draw(final(self).state(), bits),
    {
        proof {
            lemma_step_wrapping(self.seed);
        }
        self.seed = self.seed.wrapping_mul(MAGIC).wrapping_add(INCREMENT) & MASK;
        #[verifier::truncate]
        ((self.seed >> ((48 - bits) as u64)) as i32)
    }

    /// Two 32-bit draws as one 64-bit value, the first shifted into the upper
    /// half.
    pub fn next64(&mut self) -> (r: i64)
        ensures
            final(self).state() == lcg_step(lcg_step(old(self).state())),
            is_state(final(self).state()),
            r == draw64(old(self).state()),
    {
        let top = self.next(32) as i64;
        let bot = self.next(32) as i64;
        (top * 0x1_0000_0000).wrapping_add(bot)
    }

    /// The engine that this one hands out for positional use: the engine of
    /// its next 64-bit draw.
    pub fn init(r: &mut Self) -> (e: Self)
        ensures
            final(r).state() == lcg_step(lcg_step(old(r).state())),
            e.state() == scramble(draw64(old(r).state())),
    {
        Legacy::new(r.next64())
    }

    /// The ephemeral engine of block `p`: seeded with the position hash of
    /// `p` xored with this engine's state.
    pub fn at(&self, p: Point3D) -> (e: Self)
        ensures
            e.state() == state_at(self.state(), p),
    {
        proof {
            use_type_invariant(self);
        }
        Legacy::new(position_seed_of(p) ^ (self.seed as i64))
    }
}

/// The 24-bit draw of an engine in state `state`: the top 24 bits of the
/// state that follows.
pub open spec fn draw24(state: u64) -> u32 {
    (lcg_step(state) >> 24u64) as u32
}

impl BedrockRandom for Legacy {
    open spec fn draw_at(&self, p: Point3D) -> u32 {
        draw24(state_at(self.state(), p))
    }

    fn next24_at(&self, p: Point3D) -> (n: u32) {
        let mut rand = self.at(p);
        let ghost s = lcg_step(rand.state());
        let n = rand.next(24);
        proof {
            lemma_draw_range(s, 24);
            assert(pow2_of(24) == 0x100_0000) by (bit_vector);
        }
        n as u32
    }
}

} // verus!
