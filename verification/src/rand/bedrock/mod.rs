//! Bedrock pattern prediction and the two engines behind it.
//!
//! In the layers where bedrock thins out, a block is bedrock where a draw
//! that depends on the world seed and on the block's position falls on the
//! right side of a threshold that changes linearly with the height. The
//! draw is a fraction of `2^24`, so that the comparison is made in whole
//! numbers.

pub mod legacy;
pub mod util;
pub mod xoroshiro;

use vstd::prelude::*;
use vstd::string::StringSliceAdditionalSpecFns;
use crate::util::point::Point3D;
use legacy::Legacy;
use util::BedrockRandom;
use xoroshiro::{PosRandom, Xoroshiro};

verus! {

pub const OVERWORLD_LO: i32 = -64;

pub const OVERWORLD_HI: i32 = -59;

pub const NETHER_FLOOR_LO: i32 = 0;

pub const NETHER_FLOOR_HI: i32 = 5;

pub const NETHER_ROOF_LO: i32 = 122;

pub const NETHER_ROOF_HI: i32 = 127;

/// The label that seeds the engine of a roof.
pub open spec fn roof_label() -> Seq<u8> {
    "minecraft:bedrock_roof".spec_bytes()
}

/// The label that seeds the engine of a floor.
pub open spec fn floor_label() -> Seq<u8> {
    "minecraft:bedrock_floor".spec_bytes()
}

/// Whether the draw `n`, as a fraction of `2^24`, lies under the threshold
/// at height `y`: the threshold falls from 1 at `lo` to 0 at `hi`.
pub open spec fn below_threshold(n: int, y: int, lo: int, hi: int) -> bool {
    n * (hi - lo) < (hi - y) * 0x100_0000
}

/// Whether a floor between `lo` and `hi` has bedrock at height `y` for the
/// draw `n`: toward `lo` ever more blocks are bedrock.
pub open spec fn floor_bedrock(n: int, y: int, lo: int, hi: int) -> bool {
    lo <= y <= hi && below_threshold(n, y, lo, hi)
}

/// Whether a roof between `lo` and `hi` has bedrock at height `y` for the
/// draw `n`: toward `hi` ever more blocks are bedrock.
pub open spec fn roof_bedrock(n: int, y: int, lo: int, hi: int) -> bool {
    lo <= y <= hi && !below_threshold(n, y, lo, hi)
}

/// Compares the draw `n` with the threshold at height `y`.
fn is_below_threshold(n: u32, y: i32, lo: i32, hi: i32) -> (r: bool)
    requires
        n < 0x100_0000,
    ensures
        r == below_threshold(n as int, y as int, lo as int, hi as int),
{
    let span = hi as i64 - lo as i64;
    let left = hi as i64 - y as i64;
    assert(-0x1_0000_0000_0000_0000 < n * span < 0x1_0000_0000_0000_0000 && -0x1_0000_0000_0000_0000
        < left * 0x100_0000 < 0x1_0000_0000_0000_0000) by (nonlinear_arith)
        requires
            0 <= n < 0x100_0000,
            -0x1_0000_0000 <= span <= 0x1_0000_0000,
            -0x1_0000_0000 <= left <= 0x1_0000_0000,
    ;
    (n as i128) * (span as i128) < (left as i128) * 0x100_0000
}

/// Finds the bedrock of the nether's roof.
#[derive(Clone, Copy, Debug)]
pub struct RoofFinder {
    rand: PosRandom,
}

impl RoofFinder {
    /// The positional seed that the finder draws with.
    pub closed spec fn seed(self) -> (u64, u64) {
        self.rand.seed()
    }

    /// The finder of the world `seed`.
    pub fn new(seed: i64) -> (r: Self)
        ensures
            r.seed() == xoroshiro::positional_seed(
                xoroshiro::hashed_state(seed, xoroshiro::md5_digest(roof_label())),
            ),
    {
        let mut rand = xoroshiro::init_hash(seed, "minecraft:bedrock_roof".as_bytes());
        Self { rand: PosRandom::new(&mut rand) }
    }

    /// Whether block `p` is bedrock.
    pub fn is_bedrock(&self, p: Point3D) -> (r: bool)
        ensures
            r == roof_bedrock(
                xoroshiro::draw24(xoroshiro::state_at(self.seed(), p)) as int,
                p.y as int,
                NETHER_ROOF_LO as int,
                NETHER_ROOF_HI as int,
            ),
    {
        if p.y < NETHER_ROOF_LO || p.y > NETHER_ROOF_HI {
            return false;
        }
        let mut rand = self.rand.at(p);
        let n = rand.next24();
        !is_below_threshold(n, p.y, NETHER_ROOF_LO, NETHER_ROOF_HI)
    }
}

/// The worlds that have a floor of bedrock.
#[derive(Clone, Copy, PartialEq, Eq, Structural, Debug)]
pub enum FloorVariant {
    Overworld,
    Nether,
}

/// Finds the bedrock of a floor.
#[derive(Clone, Copy, Debug)]
pub struct FloorFinder {
    rand: PosRandom,
    lo: i32,
    hi: i32,
}

impl FloorFinder {
    /// The positional seed that the finder draws with.
    pub closed spec fn seed(self) -> (u64, u64) {
        self.rand.seed()
    }

    /// The lowest and the highest layer between which the floor thins out.
    pub closed spec fn layers(self) -> (i32, i32) {
        (self.lo, self.hi)
    }

    /// The finder of the world `seed`, for the floor of `variant`.
    pub fn new(seed: i64, variant: FloorVariant) -> (r: Self)
        ensures
            r.seed() == xoroshiro::positional_seed(
                xoroshiro::hashed_state(seed, xoroshiro::md5_digest(floor_label())),
            ),
            r.layers() == match variant {
                FloorVariant::Overworld => (OVERWORLD_LO, OVERWORLD_HI),
                FloorVariant::Nether => (NETHER_FLOOR_LO, NETHER_FLOOR_HI),
            },
    {
        let (lo, hi) = match variant {
            FloorVariant::Overworld => (OVERWORLD_LO, OVERWORLD_HI),
            FloorVariant::Nether => (NETHER_FLOOR_LO, NETHER_FLOOR_HI),
        };

        let mut rand = xoroshiro::init_hash(seed, "minecraft:bedrock_floor".as_bytes());

        Self { rand: PosRandom::new(&mut rand), lo, hi }
    }

    /// Whether block `p` is bedrock.
    pub fn is_bedrock(&self, p: Point3D) -> (r: bool)
        ensures
            r == floor_bedrock(
                xoroshiro::draw24(xoroshiro::state_at(self.seed(), p)) as int,
                p.y as int,
                self.layers().0 as int,
                self.layers().1 as int,
            ),
    {
        if p.y < self.lo || p.y > self.hi {
            return false;
        }
        let mut rand = self.rand.at(p);
        let n = rand.next24();
        is_below_threshold(n, p.y, self.lo, self.hi)
    }
}

/// The side of a world that a layer of bedrock closes.
#[derive(Clone, Copy, PartialEq, Eq, Structural, Debug)]
pub enum Side {
    Floor,
    Roof,
}

/// Finds the bedrock of one side of a world, drawing from an engine of
/// either kind.
pub struct BedrockFinder<R: BedrockRandom> {
    pub rand: R,
    pub lo: i32,
    pub hi: i32,
    pub side: Side,
}

/// The finder of the overworld's floor.
pub fn overworld(seed: i64) -> (r: BedrockFinder<Xoroshiro>)
    ensures
        r.rand.state() == xoroshiro::hashed_state(seed, xoroshiro::md5_digest(floor_label())),
        r.lo == OVERWORLD_LO,
        r.hi == OVERWORLD_HI,
        r.side == Side::Floor,
{
    BedrockFinder {
        rand: xoroshiro::init_hash(seed, "minecraft:bedrock_floor".as_bytes()),
        lo: OVERWORLD_LO,
        hi: OVERWORLD_HI,
        side: Side::Floor,
    }
}

/// The finder of the nether's floor.
pub fn nether_floor(seed: i64) -> (r: BedrockFinder<Legacy>)
    ensures
        r.rand.state() == legacy::hashed_state(seed, floor_label()),
        r.lo == NETHER_FLOOR_LO,
        r.hi == NETHER_FLOOR_HI,
        r.side == Side::Floor,
{
    BedrockFinder {
        rand: legacy::init_hash(seed, "minecraft:bedrock_floor".as_bytes()),
        lo: NETHER_FLOOR_LO,
        hi: NETHER_FLOOR_HI,
        side: Side::Floor,
    }
}

/// The finder of the nether's roof.
pub fn nether_roof(seed: i64) -> (r: BedrockFinder<Legacy>)
    ensures
        r.rand.state() == legacy::hashed_state(seed, roof_label()),
        r.lo == NETHER_ROOF_LO,
        r.hi == NETHER_ROOF_HI,
        r.side == Side::Roof,
{
    BedrockFinder {
        rand: legacy::init_hash(seed, "minecraft:bedrock_roof".as_bytes()),
        lo: NETHER_ROOF_LO,
        hi: NETHER_ROOF_HI,
        side: Side::Roof,
    }
}

impl<R: BedrockRandom> BedrockFinder<R> {
    /// Whether block `p` is bedrock.
    pub fn is_bedrock(&self, p: Point3D) -> (r: bool)
        ensures
            r == match self.side {
                Side::Floor => floor_bedrock(
                    self.rand.draw_at(p) as int,
                    p.y as int,
                    self.lo as int,
                    self.hi as int,
                ),
                Side::Roof => roof_bedrock(
                    self.rand.draw_at(p) as int,
                    p.y as int,
                    self.lo as int,
                    self.hi as int,
                ),
            },
    {
        if p.y < self.lo || p.y > self.hi {
            return false;
        }
        let n = self.rand.next24_at(p);
        let below = is_below_threshold(n, p.y, self.lo, self.hi);
        match self.side {
            Side::Floor => below,
            Side::Roof => !below,
        }
    }
}

} // verus!
