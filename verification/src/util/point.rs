//! Block and chunk coordinates.

use vstd::prelude::*;
use vstd::std_specs::convert::FromSpecImpl;
use vstd::string::StringExecFns;
use crate::convert::{decimal, decimal_string};

verus! {

/// Block units per chunk unit, along each horizontal axis.
pub const CHUNK_SIZE: i32 = 16;

/// The largest magnitude of a chunk coordinate inside the world.
pub const WORLD_CHUNK_RADIUS: i32 = 3_750_000;

/// A point of three 32-bit coordinates.
#[derive(Copy, Clone, PartialEq, Eq, Structural, Debug)]
pub struct Point3D {
    pub x: i32,
    pub y: i32,
    pub z: i32,
}

/// A pair of coordinates that does not say which axes it lies on.
#[derive(Copy, Clone, PartialEq, Eq, Structural, Debug)]
pub struct Point2D(pub i32, pub i32);

/// The axes, in order, that the two coordinates of a [`Point2D`] stand for.
#[derive(Copy, Clone, PartialEq, Eq, Structural, Debug)]
pub enum Repr2D {
    XY,
    YX,
    XZ,
    ZX,
    YZ,
    ZY,
}

impl Point2D {
    /// The point in space that `self` is on the plane `repr`, with `coord`
    /// on the remaining axis.
    pub fn to_3d(&self, coord: i32, repr: Repr2D) -> (p: Point3D)
        ensures
            p == match repr {
                Repr2D::XY => (Point3D { x: self.0, y: self.1, z: coord }),
                Repr2D::YX => (Point3D { x: self.1, y: self.0, z: coord }),
                Repr2D::XZ => (Point3D { x: self.0, y: coord, z: self.1 }),
                Repr2D::ZX => (Point3D { x: self.1, y: coord, z: self.0 }),
                Repr2D::YZ => (Point3D { x: coord, y: self.0, z: self.1 }),
                Repr2D::ZY => (Point3D { x: coord, y: self.1, z: self.0 }),
            },
    {
        match repr {
            Repr2D::XY => Point3D { x: self.0, y: self.1, z: coord },
            Repr2D::YX => Point3D { x: self.1, y: self.0, z: coord },
            Repr2D::XZ => Point3D { x: self.0, y: coord, z: self.1 },
            Repr2D::ZX => Point3D { x: self.1, y: coord, z: self.0 },
            Repr2D::YZ => Point3D { x: coord, y: self.0, z: self.1 },
            Repr2D::ZY => Point3D { x: coord, y: self.1, z: self.0 },
        }
    }
}

/// A point on the ground: the two horizontal coordinates of a block.
#[derive(Copy, Clone, PartialEq, Eq, Structural, Debug)]
pub struct FlatPoint {
    pub x: i32,
    pub z: i32,
}

/// The two coordinates of a point in brackets, with a comma between them.
pub open spec fn pair_text(x: i32, z: i32) -> Seq<char> {
    "("@ + decimal(x as int) + ", "@ + decimal(z as int) + ")"@
}

/// The least coordinate of the chunk of block coordinate `v`, counted toward
/// zero.
pub open spec fn chunk_corner(v: i32) -> int {
    chunk_of(v) * 16
}

fn pair_string(x: i32, z: i32) -> (r: String)
    ensures
        r@ == pair_text(x, z),
{
    let mut text = String::from_str("(");
    text.append(decimal_string(x).as_str());
    text.append(", ");
    text.append(decimal_string(z).as_str());
    text.append(")");
    text
}

impl FlatPoint {
    /// The block above this point at height `y`.
    pub fn to_3d(&self, y: i32) -> (p: Point3D)
        ensures
            p == (Point3D { x: self.x, y, z: self.z }),
    {
        Point3D { x: self.x, y, z: self.z }
    }

    /// The distance to `p`, rounded down. The squared distance has to fit in
    /// 32 bits.
    pub fn dist(&self, p: FlatPoint) -> (d: u32)
        requires
            squared_distance(self.x - p.x, 0, self.z - p.z) <= i32::MAX,
        ensures
            is_floor_sqrt(d as int, squared_distance(self.x - p.x, 0, self.z - p.z)),
    {
        let dx = self.x as i64 - p.x as i64;
        let dz = self.z as i64 - p.z as i64;
        proof {
            lemma_square_bound(dx as int, 0, dz as int);
        }
        floor_sqrt((dx * dx + dz * dz) as u32)
    }

    /// The corner of the chunk of this block: both coordinates rounded
    /// toward zero to a multiple of 16.
    pub fn as_chunk(&self) -> (p: FlatPoint)
        ensures
            p.x == chunk_corner(self.x),
            p.z == chunk_corner(self.z),
    {
        FlatPoint { x: (self.x / CHUNK_SIZE) * CHUNK_SIZE, z: (self.z / CHUNK_SIZE) * CHUNK_SIZE }
    }

    /// The block at the corner of this chunk: both coordinates times 16,
    /// which have to fit in 32 bits.
    pub fn as_coord(&self) -> (p: FlatPoint)
        requires
            i32::MIN <= self.x * 16 <= i32::MAX,
            i32::MIN <= self.z * 16 <= i32::MAX,
        ensures
            p.x == self.x * 16,
            p.z == self.z * 16,
    {
        FlatPoint { x: self.x * CHUNK_SIZE, z: self.z * CHUNK_SIZE }
    }

    /// The difference to `other`, coordinate by coordinate, which has to
    /// fit in 32 bits.
    pub fn minus(self, other: FlatPoint) -> (p: FlatPoint)
        requires
            i32::MIN <= self.x - other.x <= i32::MAX,
            i32::MIN <= self.z - other.z <= i32::MAX,
        ensures
            p.x == self.x - other.x,
            p.z == self.z - other.z,
    {
        FlatPoint { x: self.x - other.x, z: self.z - other.z }
    }

    /// The point as text: `(x, z)`.
    pub fn to_str(&self) -> (r: String)
        ensures
            r@ == pair_text(self.x, self.z),
    {
        pair_string(self.x, self.z)
    }
}

/// A block position. 32 bits reach every block of the world, whose side is
/// sixty million blocks.
pub type BlockPoint = Point3D;

/// A chunk position. The world spans 3.75 million chunks either way.
#[derive(Copy, Clone, PartialEq, Eq, Structural, Debug)]
pub struct ChunkPoint {
    pub x: i32,
    pub z: i32,
}

/// Whether `r` is the square root of `n`, rounded down.
pub open spec fn is_floor_sqrt(r: int, n: int) -> bool {
    0 <= r && r * r <= n < (r + 1) * (r + 1)
}

/// The square root of `n`, rounded down.
pub fn floor_sqrt(n: u32) -> (r: u32)
    ensures
        is_floor_sqrt(r as int, n as int),
{
    let mut lo: u64 = 0;
    let mut hi: u64 = 65536;
    while hi - lo > 1
        invariant
            lo < hi <= 65536,
            lo * lo <= n < hi * hi,
        decreases hi - lo,
    {
        let mid = lo + (hi - lo) / 2;
        assert(mid * mid <= 65536 * 65536) by (nonlinear_arith)
            requires
                mid <= 65536,
        ;
        if mid * mid <= n as u64 {
            lo = mid;
        } else {
            hi = mid;
        }
    }
    lo as u32
}

/// The squared distance between two points with these differences of
/// coordinates.
pub open spec fn squared_distance(dx: int, dy: int, dz: int) -> int {
    dx * dx + dy * dy + dz * dz
}

impl Point3D {
    /// The point on the ground below this one.
    pub fn to_2d(&self) -> (p: FlatPoint)
        ensures
            p == (FlatPoint { x: self.x, z: self.z }),
    {
        FlatPoint { x: self.x, z: self.z }
    }

    /// The corner of the chunk of this block, at the same height.
    pub fn as_chunk(&self) -> (p: Point3D)
        ensures
            p.x == chunk_corner(self.x),
            p.y == self.y,
            p.z == chunk_corner(self.z),
    {
        self.to_2d().as_chunk().to_3d(self.y)
    }

    /// The block at the corner of this chunk, at the same height. The
    /// horizontal coordinates times 16 have to fit in 32 bits.
    pub fn as_coord(&self) -> (p: Point3D)
        requires
            i32::MIN <= self.x * 16 <= i32::MAX,
            i32::MIN <= self.z * 16 <= i32::MAX,
        ensures
            p.x == self.x * 16,
            p.y == self.y,
            p.z == self.z * 16,
    {
        self.to_2d().as_coord().to_3d(self.y)
    }

    /// The horizontal coordinates of the point as text: `(x, z)`.
    pub fn to_str(&self) -> (r: String)
        ensures
            r@ == pair_text(self.x, self.z),
    {
        pair_string(self.x, self.z)
    }

    /// The distance between two blocks, rounded down. The squared distance
    /// has to fit in 32 bits.
    pub fn dist(&self, other: &Point3D) -> (d: u32)
        requires
            squared_distance(self.x - other.x, self.y - other.y, self.z - other.z) <= i32::MAX,
        ensures
            is_floor_sqrt(
                d as int,
                squared_distance(self.x - other.x, self.y - other.y, self.z - other.z),
            ),
    {
        let dx = self.x as i64 - other.x as i64;
        let dy = self.y as i64 - other.y as i64;
        let dz = self.z as i64 - other.z as i64;
        proof {
            lemma_square_bound(dx as int, dy as int, dz as int);
        }
        floor_sqrt((dx * dx + dy * dy + dz * dz) as u32)
    }
}

/// A sum of squares is at least each of them, and none is negative.
proof fn lemma_square_bound(dx: int, dy: int, dz: int)
    ensures
        0 <= dx * dx <= squared_distance(dx, dy, dz),
        0 <= dy * dy <= squared_distance(dx, dy, dz),
        0 <= dz * dz <= squared_distance(dx, dy, dz),
{
    assert(0 <= dx * dx && 0 <= dy * dy && 0 <= dz * dz) by (nonlinear_arith);
}

impl ChunkPoint {
    /// The distance between two chunks, rounded down. The squared distance
    /// has to fit in 32 bits.
    pub fn dist(&self, other: &ChunkPoint) -> (d: u32)
        requires
            squared_distance(self.x - other.x, 0, self.z - other.z) <= i32::MAX,
        ensures
            is_floor_sqrt(d as int, squared_distance(self.x - other.x, 0, self.z - other.z)),
    {
        let dx = self.x as i64 - other.x as i64;
        let dz = self.z as i64 - other.z as i64;
        proof {
            lemma_square_bound(dx as int, 0, dz as int);
        }
        floor_sqrt((dx * dx + dz * dz) as u32)
    }

    /// Whether both coordinates lie inside the world.
    pub open spec fn in_world(self) -> bool {
        &&& -WORLD_CHUNK_RADIUS <= self.x <= WORLD_CHUNK_RADIUS
        &&& -WORLD_CHUNK_RADIUS <= self.z <= WORLD_CHUNK_RADIUS
    }
}

/// The coordinate, toward zero, of the chunk that holds block coordinate `v`.
pub open spec fn chunk_of(v: i32) -> int {
    if v >= 0 {
        v as int / 16
    } else {
        -((-(v as int)) / 16)
    }
}

/// The block at the corner of a chunk, at height 0.
pub open spec fn block_of_chunk(c: ChunkPoint) -> Point3D {
    Point3D { x: c.x.wrapping_mul(16), y: 0, z: c.z.wrapping_mul(16) }
}

/// The chunk that holds a block.
pub open spec fn chunk_of_block(p: Point3D) -> ChunkPoint {
    ChunkPoint { x: chunk_of(p.x) as i32, z: chunk_of(p.z) as i32 }
}

impl From<ChunkPoint> for Point3D {
    /// The block at the corner of chunk `value`, at height 0. The products
    /// wrap around in 32 bits; inside the world they are exact.
    fn from(value: ChunkPoint) -> (p: Point3D) {
        Point3D { x: value.x.wrapping_mul(16), y: 0, z: value.z.wrapping_mul(16) }
    }
}

impl FromSpecImpl<ChunkPoint> for Point3D {
    open spec fn obeys_from_spec() -> bool {
        true
    }

    open spec fn from_spec(value: ChunkPoint) -> Point3D {
        block_of_chunk(value)
    }
}

impl From<Point3D> for ChunkPoint {
    /// The chunk of block `value`: each horizontal coordinate divided by 16,
    /// toward zero. The height is left out.
    fn from(value: Point3D) -> (c: ChunkPoint) {
        ChunkPoint { x: value.x / 16, z: value.z / 16 }
    }
}

impl FromSpecImpl<Point3D> for ChunkPoint {
    open spec fn obeys_from_spec() -> bool {
        true
    }

    open spec fn from_spec(value: Point3D) -> ChunkPoint {
        chunk_of_block(value)
    }
}

/// Inside the world, the block of a chunk has sixteen times its coordinates,
/// and converting it back gives the chunk.
pub proof fn lemma_chunk_block_round_trip(c: ChunkPoint)
    requires
        c.in_world(),
    ensures
        block_of_chunk(c) == (Point3D { x: (c.x * 16) as i32, y: 0, z: (c.z * 16) as i32 }),
        chunk_of_block(block_of_chunk(c)) == c,
{
}

} // verus!
