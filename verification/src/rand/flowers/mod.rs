//! The flowers of flower-forest biomes.
//!
//! Which flower grows on a block is decided by two samples of gradient
//! noise. What is made of whole numbers stands here: the seeds of the two
//! samplers, and the flower that a sample's eleventh selects.

pub mod noise;

use vstd::prelude::*;
use java_rand::Random;
use crate::rand::bedrock::legacy::{draw64, lcg_step, scramble};
use noise::two_steps;

verus! {

/// The seed of the generator that seeds the samplers, the same in every
/// world.
pub const FLOWER_SEED: u64 = 2345;

/// The hash of the name of the samplers' one octave.
pub const OCTAVE_HASHCODE: i64 = 1261148513;

/// The number of flowers that a flower forest grows.
pub const NUM_FLOWERS_TYPES: usize = 11;

/// Any flower that can naturally generate in a flower forest biome.
#[derive(Clone, Copy, PartialEq, Eq, Structural, Debug)]
pub enum FlowerForestFlower {
    Dandelion,
    Poppy,
    Allium,
    AzureBluet,
    RedTulip,
    OrangeTulip,
    WhiteTulip,
    PinkTulip,
    OxeyeDaisy,
    Cornflower,
    LilyOfTheValley,
}

impl FlowerForestFlower {
    /// The flower of number `id`, for the numbers from 0 to 10.
    pub open spec fn of_id(id: int) -> Option<Self> {
        if id == 0 {
            Some(FlowerForestFlower::Dandelion)
        } else if id == 1 {
            Some(FlowerForestFlower::Poppy)
        } else if id == 2 {
            Some(FlowerForestFlower::Allium)
        } else if id == 3 {
            Some(FlowerForestFlower::AzureBluet)
        } else if id == 4 {
            Some(FlowerForestFlower::RedTulip)
        } else if id == 5 {
            Some(FlowerForestFlower::OrangeTulip)
        } else if id == 6 {
            Some(FlowerForestFlower::WhiteTulip)
        } else if id == 7 {
            Some(FlowerForestFlower::PinkTulip)
        } else if id == 8 {
            Some(FlowerForestFlower::OxeyeDaisy)
        } else if id == 9 {
            Some(FlowerForestFlower::Cornflower)
        } else if id == 10 {
            Some(FlowerForestFlower::LilyOfTheValley)
        } else {
            None
        }
    }

    /// The flower of number `id`: the eleventh of the range from 0 to 1 in
    /// which the noise of a block falls.
    pub fn from_id(id: usize) -> (r: Option<Self>)
        ensures
            r == Self::of_id(id as int),
            r is Some <==> id < NUM_FLOWERS_TYPES,
    {
        match id {
            0 => Some(FlowerForestFlower::Dandelion),
            1 => Some(FlowerForestFlower::Poppy),
            2 => Some(FlowerForestFlower::Allium),
            3 => Some(FlowerForestFlower::AzureBluet),
            4 => Some(FlowerForestFlower::RedTulip),
            5 => Some(FlowerForestFlower::OrangeTulip),
            6 => Some(FlowerForestFlower::WhiteTulip),
            7 => Some(FlowerForestFlower::PinkTulip),
            8 => Some(FlowerForestFlower::OxeyeDaisy),
            9 => Some(FlowerForestFlower::Cornflower),
            10 => Some(FlowerForestFlower::LilyOfTheValley),
            _ => None,
        }
    }
}

/// The seeds of the two samplers: the first two 64-bit draws of the
/// generator of [`FLOWER_SEED`], each xored with [`OCTAVE_HASHCODE`].
pub open spec fn sampler_seeds() -> (i64, i64) {
    let s0 = scramble(FLOWER_SEED as i64);
    (draw64(s0) ^ OCTAVE_HASHCODE, draw64(two_steps(s0)) ^ OCTAVE_HASHCODE)
}

/// The seeds of the two samplers.
pub fn perlin_seeds() -> (r: (i64, i64))
    ensures
        r == sampler_seeds(),
        r == (-1223197304453310635i64, -8087649458443489125i64),
{
    proof {
        lemma_sampler_seeds();
    }
    let mut rnd = Random::new(FLOWER_SEED);

    let seed1 = rnd.next_i64();
    let seed2 = rnd.next_i64();

    (seed1 ^ OCTAVE_HASHCODE, seed2 ^ OCTAVE_HASHCODE)
}

/// The draws behind the seeds of the samplers, worked out.
pub proof fn lemma_sampler_seeds()
    ensures
        sampler_seeds() == (-1223197304453310635i64, -8087649458443489125i64),
{
    let s0 = scramble(FLOWER_SEED as i64);
    assert(s0 == 0x5deecef44u64) by (bit_vector)
        requires
            s0 == ((2345i64 as u64) ^ 0x5DEECE66Du64) & 0xFFFF_FFFF_FFFFu64,
    ;
    let s1 = lcg_step(s0);
    assert(s1 == 0xef065488f7ffu64);
    assert((0xef065488f7ffu64 >> 16u64) as i32 == -284797816i32) by (bit_vector);
    let s2 = lcg_step(s1);
    assert(s2 == 0x2f3ce34b19eu64);
    assert((0x2f3ce34b19eu64 >> 16u64) as i32 == 49532468i32) by (bit_vector);
    let s3 = lcg_step(s2);
    assert(s3 == 0x8fc2e5ab9451u64);
    assert((0x8fc2e5ab9451u64 >> 16u64) as i32 == -1883052629i32) by (bit_vector);
    let s4 = lcg_step(s3);
    assert(s4 == 0xbab3e9faec88u64);
    assert((0xbab3e9faec88u64 >> 16u64) as i32 == -1162614278i32) by (bit_vector);
    assert(draw64(s0) == -1223197305642693068i64);
    assert(draw64(s2) == -8087649459364435462i64);
    assert(-1223197305642693068i64 ^ 1261148513i64 == -1223197304453310635i64) by (bit_vector);
    assert(-8087649459364435462i64 ^ 1261148513i64 == -8087649458443489125i64) by (bit_vector);
}

} // verus!
