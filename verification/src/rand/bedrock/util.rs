//! The position hash that both engines reseed with.

use vstd::prelude::*;
use vstd::wrapping::i32_specs;
use vstd::wrapping::i64_specs;
use crate::util::point::Point3D;

verus! {

/// The first stage of the position hash: the coordinates combined by xor.
/// The products of `x` and of `z` wrap around in 32 bits before they are
/// widened.
pub open spec fn position_mix(p: Point3D) -> i64 {
    (i32_specs::signed_crop(p.x * 3129871) as i64) ^ (i32_specs::signed_crop(p.z * 116129781) as i64)
        ^ (p.y as i64)
}

/// The position hash of a block: with `h` the combined coordinates,
/// `h * h * 42317861 + h * 11` in 64 bits with wraparound, shifted right by
/// 16 with the sign kept.
pub open spec fn position_seed(p: Point3D) -> i64 {
    let h = position_mix(p) as int;
    i64_specs::signed_crop(h * h * 42317861 + h * 11) >> 16
}

/// A wrapping 64-bit product is the exact product reduced into the signed
/// range, whatever was reduced before.
proof fn lemma_crop_mul(a: int, b: int)
    ensures
        i64_specs::signed_crop(i64_specs::signed_crop(a) * b) == i64_specs::signed_crop(a * b),
{
    let m = 0x1_0000_0000_0000_0000int;
    let c = i64_specs::signed_crop(a) as int;
    let k = (a - c) / m;
    assert(a == c + k * m);
    assert(a * b == c * b + (k * b) * m) by (nonlinear_arith)
        requires
            a == c + k * m,
    ;
    vstd::arithmetic::div_mod::lemma_mod_multiples_vanish(k * b, c * b, m);
}

proof fn lemma_crop_add(a: int, b: int)
    ensures
        i64_specs::signed_crop(i64_specs::signed_crop(a) + i64_specs::signed_crop(b))
            == i64_specs::signed_crop(a + b),
{
}

/// Computes the position hash of `p`.
pub fn position_seed_of(p: Point3D) -> (r: i64)
    ensures
        r == position_seed(p),
{
    let hx = p.x.wrapping_mul(3129871) as i64;
    let hz = p.z.wrapping_mul(116129781) as i64;
    let h = hx ^ hz ^ (p.y as i64);
    let sq = h.wrapping_mul(h);
    let quad = sq.wrapping_mul(42317861);
    let lin = h.wrapping_mul(11);
    let sum = quad.wrapping_add(lin);
    proof {
        assert(h == position_mix(p));
        lemma_crop_mul(h * h, 42317861);
        lemma_crop_add(h * h * 42317861, h * 11);
        assert(sum == i64_specs::signed_crop(quad + lin));
    }
    sum >> 16
}

/// An engine that can be reseeded by position: for each block it yields a
/// draw of 24 bits that depends on nothing but the engine's state and the
/// block.
pub trait BedrockRandom: Sized {
    /// The draw at block `p`.
    spec fn draw_at(&self, p: Point3D) -> u32;

    /// Draws at block `p`: a number below `2^24`.
    fn next24_at(&self, p: Point3D) -> (n: u32)
        ensures
            n == self.draw_at(p),
            n < 0x100_0000,
    ;
}

} // verus!
