//! The 128-bit rotate-based engine (xoroshiro128++), with the seeding that
//! derives an engine from a world seed and a label.

use vstd::prelude::*;
use crate::rand::bedrock::util::{position_seed, position_seed_of, BedrockRandom};
use crate::util::point::Point3D;

verus! {

/// First word of the state that stands in for the all-zero state, and the
/// constant that a world seed is xored with.
pub const X_CONST_1: u64 = 0x6a09e667f3bcc909;

/// Second word of the state that stands in for the all-zero state, and the
/// distance between the two words that a world seed gives.
pub const X_CONST_2: u64 = 0x9e3779b97f4a7c15;

/// `x` rotated left by `n` bits, for `n` from 1 to 63.
pub open spec fn rotl(x: u64, n: u32) -> u64 {
    (x << n) | (x >> ((64 - n) as u32))
}

/// `u64::rotate_left` of the standard library: the bits of `x` shifted left
/// by `n`, those pushed out at the top coming back in at the bottom. Stated
/// for rotations of 1 to 63 bits, which are the ones made here.
pub assume_specification[ u64::rotate_left ](x: u64, n: u32) -> (r: u64)
    ensures
        0 < n < 64 ==> r == rotl(x, n),
;

/// The value that a state puts out.
pub open spec fn output(s: (u64, u64)) -> u64 {
    rotl(s.0.wrapping_add(s.1), 17).wrapping_add(s.0)
}

/// The state that follows a state.
pub open spec fn step(s: (u64, u64)) -> (u64, u64) {
    let x = s.1 ^ s.0;
    (rotl(s.0, 49) ^ x ^ (x << 21u64), rotl(x, 28))
}

/// The state that two words seed: the words themselves, unless both are
/// zero, for which the engine would never leave zero.
pub open spec fn seeded(s: (u64, u64)) -> (u64, u64) {
    if s.0 == 0 && s.1 == 0 {
        (X_CONST_1, X_CONST_2)
    } else {
        s
    }
}

/// The 64-bit finalizer of two xor-shift and multiply rounds.
pub open spec fn mixed(v: u64) -> u64 {
    let a = (v ^ (v >> 30u64)).wrapping_mul(0xbf58476d1ce4e5b9);
    let b = (a ^ (a >> 27u64)).wrapping_mul(0x94d049bb133111eb);
    b ^ (b >> 31u64)
}

/// The number that eight bytes spell, most significant first.
pub open spec fn be_u64(b: Seq<u8>) -> u64
    recommends
        b.len() == 8,
{
    ((b[0] as u64) << 56u64) | ((b[1] as u64) << 48u64) | ((b[2] as u64) << 40u64) | ((b[3] as u64)
        << 32u64) | ((b[4] as u64) << 24u64) | ((b[5] as u64) << 16u64) | ((b[6] as u64) << 8u64) | (
    b[7] as u64)
}

/// The state of the engine that seeds the hashed one: the two finalized
/// words that a world seed gives.
pub open spec fn seeder_state(seed: i64) -> (u64, u64) {
    let s0 = (seed as u64) ^ X_CONST_1;
    seeded((mixed(s0), mixed(s0.wrapping_add(X_CONST_2))))
}

/// The state of the engine that a world seed and the 16-byte digest of a
/// label give: the seeder's first two outputs, each xored with one half of
/// the digest.
pub open spec fn hashed_state(seed: i64, digest: Seq<u8>) -> (u64, u64)
    recommends
        digest.len() == 16,
{
    let first = seeder_state(seed);
    let second = step(first);
    seeded(
        (
            be_u64(digest.subrange(0, 8)) ^ output(first),
            be_u64(digest.subrange(8, 16)) ^ output(second),
        ),
    )
}

/// The state of the ephemeral engine of block `p` under the positional seed
/// `s`: the position hash goes into the first word only.
pub open spec fn state_at(s: (u64, u64), p: Point3D) -> (u64, u64) {
    seeded(((position_seed(p) as u64) ^ s.0, s.1))
}

/// The positional seed that an engine in state `s` hands out: its next two
/// outputs.
pub open spec fn positional_seed(s: (u64, u64)) -> (u64, u64) {
    (output(s), output(step(s)))
}

/// The 24-bit draw of an engine in state `s`: the top 24 bits of its
/// output.
pub open spec fn draw24(s: (u64, u64)) -> u32 {
    (output(s) >> 40u64) as u32
}

/// The MD5 digest of a byte string, as `md5::compute` returns it.
pub uninterp spec fn md5_digest(bytes: Seq<u8>) -> Seq<u8>;

/// `md5::compute`: the 16 bytes of the MD5 digest of `s`.
#[verifier::external_body]
fn md5_of(s: &[u8]) -> (r: [u8; 16])
    ensures
        r@ == md5_digest(s@),
{
    md5::compute(s).into()
}

/// Emulates the finalizer `mixStafford13`.
pub fn mix(v: u64) -> (r: u64)
    ensures
        r == mixed(v),
{
    let v = (v ^ (v >> 30)).wrapping_mul(0xbf58476d1ce4e5b9);
    let v = (v ^ (v >> 27)).wrapping_mul(0x94d049bb133111eb);
    v ^ (v >> 31)
}

/// The engine that the two words of `seed` give.
pub fn init(seed: [u64; 2]) -> (r: Xoroshiro)
    ensures
        r.state() == seeded((seed[0], seed[1])),
{
    let s0 = seed[0];
    let s1 = seed[1];

    if (s0 | s1) == 0 {
        assert(s0 == 0 && s1 == 0) by (bit_vector)
            requires
                s0 | s1 == 0,
        ;
        Xoroshiro::new([X_CONST_1, X_CONST_2])
    } else {
        assert(!(s0 == 0 && s1 == 0)) by (bit_vector)
            requires
                s0 | s1 != 0,
        ;
        Xoroshiro::new(seed)
    }
}

/// Reads eight bytes of `b`, from index `at` on, as a number, most
/// significant byte first.
fn read_be_u64(b: &[u8; 16], at: usize) -> (r: u64)
    requires
        at + 8 <= 16,
    ensures
        r == be_u64(b@.subrange(at as int, at + 8)),
{
    ((b[at] as u64) << 56) | ((b[at + 1] as u64) << 48) | ((b[at + 2] as u64) << 40) | ((b[at
        + 3] as u64) << 32) | ((b[at + 4] as u64) << 24) | ((b[at + 5] as u64) << 16) | ((b[at
        + 6] as u64) << 8) | (b[at + 7] as u64)
}

/// The engine that a world seed and the digest of a label give.
pub fn init_from_digest(seed: i64, digest: &[u8; 16]) -> (r: Xoroshiro)
    ensures
        r.state() == hashed_state(seed, digest@),
{
    let s0 = (#[verifier::truncate] (seed as u64)) ^ X_CONST_1;
    let s1 = s0.wrapping_add(X_CONST_2);

    let mut seeder = init([mix(s0), mix(s1)]);

    let h0 = read_be_u64(digest, 0);
    let h1 = read_be_u64(digest, 8);
    let a = h0 ^ seeder.next64();
    let b = h1 ^ seeder.next64();
    init([a, b])
}

/// The engine that a world seed and the label `s` give: the label enters by
/// its MD5 digest.
pub fn init_hash(seed: i64, s: &[u8]) -> (r: Xoroshiro)
    ensures
        r.state() == hashed_state(seed, md5_digest(s@)),
{
    let digest = md5_of(s);
    init_from_digest(seed, &digest)
}

/// The xoroshiro128++ engine.
#[derive(Clone, Copy, Debug)]
pub struct Xoroshiro {
    s0: u64,
    s1: u64,
}

impl Xoroshiro {
    /// The two words of the engine's state.
    pub closed spec fn state(self) -> (u64, u64) {
        (self.s0, self.s1)
    }

    /// The engine in the state `seed`, taken as it is.
    pub fn new(seed: [u64; 2]) -> (r: Self)
        ensures
            r.state() == (seed[0], seed[1]),
    {
        Self { s0: seed[0], s1: seed[1] }
    }

    /// Steps the engine and returns the output of the state it was in.
    pub fn next64(&mut self) -> (r: u64)
        ensures
            r == output(old(self).state()),
            final(self).state() == step(old(self).state()),
    {
        let s0 = self.s0;
        let mut s1 = self.s1;
        let result = s0.wrapping_add(s1).rotate_left(17).wrapping_add(s0);

        s1 ^= s0;
        self.s0 = s0.rotate_left(49) ^ s1 ^ (s1 << 21);
        self.s1 = s1.rotate_left(28);

        result
    }

    /// Steps the engine and returns the top `bits` bits of its output, of
    /// which the low 32 are kept and read as a signed integer.
    pub fn next(&mut self, bits: u8) -> (r: i32)
        requires
            1 <= bits <= 64,
        ensures
            r == (output(old(self).state()) >> ((64 - bits) as u64)) as i32,
            final(self).state() == step(old(self).state()),
    {
        let shift = 64 - bits;
        let rbits = self.next64();

        #[verifier::truncate]
        ((rbits >> (shift as u64)) as i32)
    }

    /// Steps the engine and returns the top 24 bits of its output: the
    /// numerator, over `2^24`, of a fraction from 0 up to, and without, 1.
    pub fn next24(&mut self) -> (n: u32)
        ensures
            n == draw24(old(self).state()),
            n < 0x100_0000,
            final(self).state() == step(old(self).state()),
    {
        let rbits = self.next64();
        let top = rbits >> 40;
        assert(top < 0x100_0000) by (bit_vector)
            requires
                top == rbits >> 40,
        ;
        top as u32
    }

    /// The engine that this one hands out for positional use: its state is
    /// this engine's next two outputs, taken as they are.
    pub fn init(r: &mut Self) -> (e: Self)
        ensures
            e.state() == positional_seed(old(r).state()),
            final(r).state() == step(step(old(r).state())),
    {
        let a = r.next64();
        let b = r.next64();
        Self::new([a, b])
    }

    /// The ephemeral engine of block `p`.
    pub fn at(&self, p: Point3D) -> (e: Self)
        ensures
            e.state() == state_at(self.state(), p),
    {
        init([(#[verifier::truncate] (position_seed_of(p) as u64)) ^ self.s0, self.s1])
    }
}

/// The two words from which every positional engine of a world is derived.
#[derive(Clone, Copy, Debug)]
pub struct PosRandom {
    xoroshiro_seed: [u64; 2],
}

impl PosRandom {
    /// The two words.
    pub closed spec fn seed(self) -> (u64, u64) {
        (self.xoroshiro_seed[0], self.xoroshiro_seed[1])
    }

    /// Takes the next two outputs of `x` as the positional seed.
    pub fn new(x: &mut Xoroshiro) -> (r: Self)
        ensures
            r.seed() == positional_seed(old(x).state()),
            final(x).state() == step(step(old(x).state())),
    {
        let a = x.next64();
        let b = x.next64();
        Self { xoroshiro_seed: [a, b] }
    }

    /// The ephemeral engine of block `p`.
    pub fn at(&self, p: Point3D) -> (e: Xoroshiro)
        ensures
            e.state() == state_at(self.seed(), p),
    {
        let s0 = self.xoroshiro_seed[0];
        let s1 = self.xoroshiro_seed[1];
        init([(#[verifier::truncate] (position_seed_of(p) as u64)) ^ s0, s1])
    }
}

impl BedrockRandom for Xoroshiro {
    open spec fn draw_at(&self, p: Point3D) -> u32 {
        draw24(state_at(self.state(), p))
    }

    fn next24_at(&self, p: Point3D) -> (n: u32) {
        let mut rand = self.at(p);
        rand.next24()
    }
}

} // verus!
