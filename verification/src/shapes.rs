//! The blocks of simple shapes.

use vstd::prelude::*;
use crate::util::point::{floor_sqrt, is_floor_sqrt, Point3D};

verus! {

/// The greatest radius of a circle: its square is the greatest that fits in
/// 32 bits with a sign.
pub const MAX_RADIUS: u32 = 46340;

pub type BlockList = Vec<Point3D>;

/// The plane that a flat shape lies in, by the axes of its two coordinates
/// in order.
#[derive(Copy, Clone, PartialEq, Eq, Structural, Debug)]
pub enum Orientation {
    XY,
    YZ,
    ZX,
}

/// Whether `r` is the square root of `n`, rounded to the nearest integer.
/// No square root of an integer lies halfway between two integers.
pub open spec fn is_round_sqrt(r: int, n: int) -> bool {
    0 <= r && 4 * n < (2 * r + 1) * (2 * r + 1) && (r == 0 || (2 * r - 1) * (2 * r - 1) < 4 * n)
}

/// The square root of `n`, rounded to the nearest integer.
pub fn round_sqrt(n: u32) -> (r: u32)
    ensures
        is_round_sqrt(r as int, n as int),
        r <= 65536,
{
    let f = floor_sqrt(n);
    assert(f <= 65535) by (nonlinear_arith)
        requires
            f * f <= n,
            n <= u32::MAX,
    ;
    assert(f * f <= 65535 * 65535) by (nonlinear_arith)
        requires
            0 <= f <= 65535,
    ;
    let r = if n - f * f > f {
        f + 1
    } else {
        f
    };
    proof {
        let fi = f as int;
        assert((2 * fi + 1) * (2 * fi + 1) == 4 * (fi * fi) + 4 * fi + 1 && (2 * fi + 3) * (2 * fi
            + 3) == 4 * (fi * fi) + 12 * fi + 9 && (2 * fi - 1) * (2 * fi - 1) == 4 * (fi * fi) - 4
            * fi + 1 && (fi + 1) * (fi + 1) == fi * fi + 2 * fi + 1) by (nonlinear_arith);
    }
    r
}

/// The square root of `n`, rounded to the nearest integer.
pub open spec fn round_sqrt_of(n: int) -> int {
    choose|r: int| is_round_sqrt(r, n)
}

/// Only one number is the rounded square root of `n`.
pub proof fn lemma_round_sqrt_unique(r: int, n: int)
    requires
        is_round_sqrt(r, n),
    ensures
        round_sqrt_of(n) == r,
{
    let s = round_sqrt_of(n);
    assert(is_round_sqrt(s, n));
    assert(s == r) by (nonlinear_arith)
        requires
            is_round_sqrt(s, n),
            is_round_sqrt(r, n),
    ;
}

/// The height of the circle of radius `radius` over the column `x`: the
/// rounded square root of `radius^2 - x^2`.
pub open spec fn height(radius: int, x: int) -> int {
    round_sqrt_of(radius * radius - x * x)
}

/// The number of blocks that the upper half of the circle gets in column
/// `i`: the step in height to the next column toward the middle.
pub open spec fn column_step(radius: int, i: int) -> int {
    let step = if i < 0 {
        height(radius, i + 1) - height(radius, i)
    } else if radius == 0 {
        0
    } else {
        height(radius, i) - height(radius, i - 1)
    };
    if step < 0 {
        -step
    } else {
        step
    }
}

/// The points of the circle in column `i`, as pairs of the column and a
/// height: the upper half's from the circle upward, then the lower half's,
/// one fewer, from its mirror image downward.
pub open spec fn column_points(radius: int, i: int) -> Seq<(int, int)> {
    let j = height(radius, i);
    let n = column_step(radius, i);
    Seq::new(n as nat, |d: int| (i, j + d)) + Seq::new(
        (if n >= 1 {
            n - 1
        } else {
            0
        }) as nat,
        |d: int| (i, -j - d),
    )
}

/// The points of the first `k` columns of the circle, from column `-radius`
/// on.
pub open spec fn circle_points(radius: int, k: int) -> Seq<(int, int)>
    decreases k,
{
    if k <= 0 {
        Seq::<(int, int)>::empty()
    } else {
        circle_points(radius, k - 1) + column_points(radius, -radius + k - 1)
    }
}

/// Where a point of a flat shape lies in space: its two coordinates on the
/// axes of the plane, and the third taken from `center`.
pub open spec fn placed(p: (int, int), center: Point3D, orientation: Orientation) -> Point3D {
    match orientation {
        Orientation::XY => (Point3D { x: p.0 as i32, y: p.1 as i32, z: center.z }),
        Orientation::YZ => (Point3D { x: center.x, y: p.0 as i32, z: p.1 as i32 }),
        Orientation::ZX => (Point3D { x: p.1 as i32, y: center.y, z: p.0 as i32 }),
    }
}

/// The height of the circle over column `x`.
fn height_of(radius: u32, x: i32) -> (j: i32)
    requires
        radius <= MAX_RADIUS,
        -radius <= x <= radius,
    ensures
        j == height(radius as int, x as int),
        0 <= j <= radius,
{
    assert(0 <= x * x <= radius * radius <= 46340 * 46340) by (nonlinear_arith)
        requires
            -radius <= x <= radius,
            radius <= 46340,
    ;
    let n = radius * radius - (x * x) as u32;
    let r = round_sqrt(n);
    proof {
        lemma_round_sqrt_unique(r as int, n as int);
        assert(r <= radius) by (nonlinear_arith)
            requires
                is_round_sqrt(r as int, n as int),
                0 <= n <= radius * radius,
        ;
    }
    r as i32
}

/// The blocks of a circle.
pub struct Circle {
    pub points: Vec<Point3D>,
    pub radius: u32,
    pub center: Point3D,
    pub orientation: Orientation,
}

impl Circle {
    /// The circle of radius `radius` in the plane `orientation`. Its points
    /// are made around the origin of the plane, column by column; `center`
    /// gives their third coordinate.
    pub fn new(radius: u32, center: Point3D, orientation: Orientation) -> (c: Self)
        requires
            radius <= MAX_RADIUS,
        ensures
            c.radius == radius,
            c.center == center,
            c.orientation == orientation,
            c.points@ == circle_points(radius as int, 2 * radius + 1).map_values(
                |p: (int, int)| placed(p, center, orientation),
            ),
    {
        let rad = radius as i32;
        let ghost place = |p: (int, int)| placed(p, center, orientation);
        let mut points: Vec<Point3D> = Vec::new();
        let mut prev: i32 = 0;
        let mut i: i32 = -rad;
        proof {
            assert(circle_points(radius as int, 0).map_values(place) == Seq::<Point3D>::empty());
        }
        while i <= rad
            invariant
                radius <= MAX_RADIUS,
                rad == radius,
                -rad <= i <= rad + 1,
                place == |p: (int, int)| placed(p, center, orientation),
                i > -rad ==> prev == height(radius as int, i - 1),
                i == -rad ==> prev == 0,
                0 <= prev <= radius,
                points@ == circle_points(radius as int, i + rad).map_values(place),
            decreases rad + 1 - i,
        {
            let j = height_of(radius, i);
            let step = if i < 0 {
                height_of(radius, i + 1) - j
            } else {
                j - prev
            };
            let diff = if step < 0 {
                -step
            } else {
                step
            };
            proof {
                if i >= 0 && radius == 0 {
                    assert(j == 0);
                }
                assert(diff == column_step(radius as int, i as int));
            }
            let ghost before = points@;
            let ghost upper = Seq::new(diff as nat, |d: int| (i as int, j + d));
            let ghost lower = Seq::new(
                (if diff >= 1 {
                    diff - 1
                } else {
                    0
                }) as nat,
                |d: int| (i as int, -j - d),
            );
            // upper part of circle
            let mut d: i32 = 0;
            while d < diff
                invariant
                    0 <= d <= diff || (d == 0 && diff < 0),
                    0 <= j <= radius,
                    0 <= diff <= radius,
                    radius <= MAX_RADIUS,
                    -rad <= i <= rad,
                    rad == radius,
                    place == |p: (int, int)| placed(p, center, orientation),
                    upper == Seq::new(diff as nat, |d: int| (i as int, j + d)),
                    points@ == before + upper.take(d as int).map_values(place),
                decreases diff - d,
            {
                let p = Self::place(i, j + d, center, orientation);
                proof {
                    assert(upper[d as int] == (i as int, j + d));
                    assert(upper.take(d + 1).map_values(place) == upper.take(d as int).map_values(
                        place,
                    ).push(place(upper[d as int])));
                }
                points.push(p);
                d += 1;
            }
            proof {
                assert(upper.take(diff as int) == upper);
            }
            let ghost middle = points@;
            // lower part of circle
            let mut d: i32 = 0;
            while d < diff - 1
                invariant
                    0 <= d <= diff - 1 || d == 0,
                    0 <= j <= radius,
                    0 <= diff <= radius,
                    radius <= MAX_RADIUS,
                    -rad <= i <= rad,
                    rad == radius,
                    place == |p: (int, int)| placed(p, center, orientation),
                    lower == Seq::new(
                        (if diff >= 1 {
                            diff - 1
                        } else {
                            0
                        }) as nat,
                        |d: int| (i as int, -j - d),
                    ),
                    points@ == middle + lower.take(d as int).map_values(place),
                decreases diff - 1 - d,
            {
                let p = Self::place(i, -j - d, center, orientation);
                proof {
                    assert(lower[d as int] == (i as int, -j - d));
                    assert(lower.take(d + 1).map_values(place) == lower.take(d as int).map_values(
                        place,
                    ).push(place(lower[d as int])));
                }
                points.push(p);
                d += 1;
            }
            proof {
                assert(lower.take(lower.len() as int) == lower);
                assert(column_points(radius as int, i as int) == upper + lower);
                assert((upper + lower).map_values(place) == upper.map_values(place)
                    + lower.map_values(place));
                let done = circle_points(radius as int, i + rad);
                assert(circle_points(radius as int, i + rad + 1) == done + (upper + lower));
                assert((done + (upper + lower)).map_values(place) == done.map_values(place) + (upper
                    + lower).map_values(place));
            }
            prev = j;
            i += 1;
        }
        Circle { points, radius, center, orientation }
    }

    /// Places a point of the plane in space.
    fn place(a: i32, b: i32, center: Point3D, orientation: Orientation) -> (p: Point3D)
        ensures
            p == placed((a as int, b as int), center, orientation),
    {
        match orientation {
            Orientation::XY => Point3D { x: a, y: b, z: center.z },
            Orientation::YZ => Point3D { x: center.x, y: a, z: b },
            Orientation::ZX => Point3D { x: b, y: center.y, z: a },
        }
    }
}

/// The difference between item `i` of `values` and the item before it; the
/// first item is compared with zero.
pub open spec fn difference_at(values: Seq<i32>, i: int) -> int {
    if i == 0 {
        values[0] as int
    } else {
        values[i] - values[i - 1]
    }
}

/// The differences between each item and the one before it, the first
/// compared with zero. Each difference has to fit in 32 bits.
pub fn differences(values: &Vec<i32>) -> (r: Vec<i32>)
    requires
        forall|i: int|
            0 <= i < values@.len() ==> i32::MIN <= #[trigger] difference_at(values@, i) <= i32::MAX,
    ensures
        r@.len() == values@.len(),
        forall|i: int| 0 <= i < r@.len() ==> #[trigger] r@[i] == difference_at(values@, i),
{
    let mut r: Vec<i32> = Vec::new();
    let mut prev: i32 = 0;
    let mut i: usize = 0;
    while i < values.len()
        invariant
            i <= values.len(),
            r@.len() == i,
            prev == (if i == 0 {
                0
            } else {
                values@[i - 1]
            }),
            forall|k: int|
                0 <= k < values@.len() ==> i32::MIN <= #[trigger] difference_at(values@, k)
                    <= i32::MAX,
            forall|k: int| 0 <= k < i ==> #[trigger] r@[k] == difference_at(values@, k),
        decreases values.len() - i,
    {
        let next = values[i];
        proof {
            assert(i32::MIN <= difference_at(values@, i as int) <= i32::MAX);
        }
        r.push(next - prev);
        prev = next;
        i += 1;
    }
    r
}

} // verus!
