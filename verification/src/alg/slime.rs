//! The search for the window of chunks that holds the most slime chunks.

use vstd::prelude::*;
use crate::alg::count::{
    cell,
    lemma_rect_bounds,
    lemma_rect_flat,
    lemma_rect_recurrence,
    lemma_window_from_prefixes,
    rect_count,
};
use crate::alg::table::{table_shape, CountTable};
use crate::alg::util::SearchResult;
use crate::rand::slime::is_slimechunk;
use crate::util::point::ChunkPoint;

verus! {

/// The side of the world in chunks: no side of a searched rectangle is
/// longer.
pub const MAX_EXTENT: usize = 3_750_000;

/// Why a rectangle cannot be searched.
#[derive(Copy, Clone, PartialEq, Eq, Structural, Debug)]
pub enum SearchError {
    /// A coordinate of `start` is greater than that of `end`.
    InvertedBounds,
    /// A side of the rectangle is longer than the world.
    TooWide,
    /// The rectangle holds more chunks than a count can number, or its
    /// table more bytes than one allocation can.
    TooLarge,
    /// The window has no width or no height, or is wider or higher than
    /// the rectangle.
    BadWindow,
    /// The tiles have no width.
    EmptyTile,
}

/// The side of the tiles of the large search. Tiles have nothing to do with
/// chunks of the world: a tile of this side takes a table of 400 megabytes,
/// whatever the size of the whole search.
pub const CHUNK_SIZE: usize = 10_000;

/// The number of chunks from `start` to `end` along `x`, both included.
pub open spec fn extent_x(start: ChunkPoint, end: ChunkPoint) -> int {
    end.x - start.x + 1
}

/// The number of chunks from `start` to `end` along `z`, both included.
pub open spec fn extent_z(start: ChunkPoint, end: ChunkPoint) -> int {
    end.z - start.z + 1
}

/// Why the rectangle from `start` to `end` is refused, if it is, whatever
/// the window.
pub open spec fn rect_rejection(start: ChunkPoint, end: ChunkPoint) -> Option<SearchError> {
    let ex = extent_x(start, end);
    let ez = extent_z(start, end);
    if start.x > end.x || start.z > end.z {
        Some(SearchError::InvertedBounds)
    } else if ex > MAX_EXTENT || ez > MAX_EXTENT {
        Some(SearchError::TooWide)
    } else if ex * ez > u32::MAX || (ex + 1) * (ez + 1) * 4 > isize::MAX {
        Some(SearchError::TooLarge)
    } else {
        None
    }
}

/// Whether the window of `w` by `h` chunks has a width and a height, and is
/// no wider and no higher than the rectangle from `start` to `end`.
pub open spec fn window_fits(start: ChunkPoint, end: ChunkPoint, w: int, h: int) -> bool {
    &&& 1 <= w <= extent_x(start, end)
    &&& 1 <= h <= extent_z(start, end)
}

/// Why the search of the rectangle from `start` to `end` for a window of
/// `w` by `h` chunks is refused, if it is: the rectangle is looked at first,
/// then the window.
pub open spec fn rejection(start: ChunkPoint, end: ChunkPoint, w: int, h: int) -> Option<
    SearchError,
> {
    match rect_rejection(start, end) {
        Some(e) => Some(e),
        None => if window_fits(start, end, w, h) {
            None
        } else {
            Some(SearchError::BadWindow)
        },
    }
}

/// The number of slime chunks in the window of `w` by `h` chunks whose least
/// corner lies `a` chunks along `x` and `b` chunks along `z` from `start`.
pub open spec fn window_count(seed: i64, start: ChunkPoint, a: int, b: int, w: int, h: int) -> int {
    rect_count(seed, start.x + a, start.z + b, w, h)
}

/// That window as a result: its two corners and its count.
pub open spec fn window_at(seed: i64, start: ChunkPoint, a: int, b: int, w: int, h: int)
    -> SearchResult {
    SearchResult {
        seed,
        p1: ChunkPoint { x: (start.x + a) as i32, z: (start.z + b) as i32 },
        p2: ChunkPoint { x: (start.x + a + w - 1) as i32, z: (start.z + b + h - 1) as i32 },
        slime_chunks: window_count(seed, start, a, b, w, h) as u32,
    }
}

/// Whether the window at offset `(a, b)` lies inside the rectangle: these
/// are the windows that the search looks at, all of them.
pub open spec fn is_placement(start: ChunkPoint, end: ChunkPoint, a: int, b: int, w: int, h: int)
    -> bool {
    &&& 0 <= a <= extent_x(start, end) - w
    &&& 0 <= b <= extent_z(start, end) - h
}

/// Whether the search looks at offset `(a1, b1)` before `(a2, b2)`: it goes
/// by increasing `a`, and for each `a` by increasing `b`.
pub open spec fn comes_before(a1: int, b1: int, a2: int, b2: int) -> bool {
    a1 < a2 || (a1 == a2 && b1 < b2)
}

/// The best window among those that the search looks at before offset
/// `(a, b)`: each window replaces the best so far only where its count is
/// strictly greater. The search starts from the first window, the one at
/// the start of the rectangle.
pub open spec fn best_before(
    seed: i64,
    start: ChunkPoint,
    end: ChunkPoint,
    w: int,
    h: int,
    a: int,
    b: int,
) -> SearchResult
    decreases a, b,
{
    if a < 0 {
        window_at(seed, start, 0, 0, w, h)
    } else if b > 0 {
        window_at(seed, start, a, b - 1, w, h).greater(
            best_before(seed, start, end, w, h, a, b - 1),
        )
    } else if a > 0 {
        best_before(seed, start, end, w, h, a - 1, extent_z(start, end) - h + 1)
    } else {
        window_at(seed, start, 0, 0, w, h)
    }
}

/// The window that the search returns: the first of the windows inside the
/// rectangle that hold the most slime chunks.
pub open spec fn best_window(seed: i64, start: ChunkPoint, end: ChunkPoint, w: int, h: int)
    -> SearchResult {
    best_before(seed, start, end, w, h, extent_x(start, end) - w + 1, 0)
}

/// Whether table `t` of the rectangle of `sw` by `sh` chunks at `(x0, z0)`
/// is filled up to, and without, row `i`, column `j`: every count before
/// that place, row by row, is the number of slime chunks among the first
/// `p` by `q` chunks, and every other count is still zero.
pub open spec fn filled_before(
    t: CountTable,
    seed: i64,
    x0: int,
    z0: int,
    sw: int,
    sh: int,
    i: int,
    j: int,
) -> bool {
    &&& table_shape(t) == ((sw + 1) as nat, (sh + 1) as nat)
    &&& forall|p: int, q: int|
        0 <= p <= sw && 0 <= q <= sh ==> #[trigger] t.at(p, q) == (if p < i || (p == i && q < j) {
            rect_count(seed, x0, z0, p, q)
        } else {
            0
        })
}

/// The count of the first `i` by `j` chunks, made of the three counts
/// before it and of the chunk in that place, fits a `u32`.
proof fn lemma_fill_value(seed: i64, x0: int, z0: int, sw: int, sh: int, i: int, j: int)
    requires
        1 <= i <= sw,
        1 <= j <= sh,
        sw * sh <= u32::MAX,
    ensures
        rect_count(seed, x0, z0, i, j) == rect_count(seed, x0, z0, i - 1, j) + rect_count(
            seed,
            x0,
            z0,
            i,
            j - 1,
        ) - rect_count(seed, x0, z0, i - 1, j - 1) + cell(seed, x0 + i - 1, z0 + j - 1),
        0 <= rect_count(seed, x0, z0, i, j) <= u32::MAX,
        0 <= rect_count(seed, x0, z0, i - 1, j - 1),
        rect_count(seed, x0, z0, i - 1, j - 1) <= rect_count(seed, x0, z0, i - 1, j),
        rect_count(seed, x0, z0, i, 0) == 0,
        rect_count(seed, x0, z0, i - 1, 0) == 0,
{
    lemma_rect_flat(seed, x0, z0, i);
    lemma_rect_flat(seed, x0, z0, i - 1);
    lemma_rect_recurrence(seed, x0, z0, i, j);
    lemma_rect_bounds(seed, x0, z0, i, j);
    lemma_rect_bounds(seed, x0, z0, i - 1, j - 1);
    crate::alg::count::lemma_rect_split_rows(seed, x0, z0, i - 1, j, 1);
    lemma_rect_bounds(seed, x0, z0 + j - 1, i - 1, 1);
    assert(i * j <= sw * sh) by (nonlinear_arith)
        requires
            1 <= i <= sw,
            1 <= j <= sh,
    ;
}

/// Sets the count of row `i`, column `j` from the three counts before it
/// and from the chunk in that place.
fn fill_cell(
    c_mat: &mut CountTable,
    seed: i64,
    start: ChunkPoint,
    sw: usize,
    sh: usize,
    i: usize,
    j: usize,
)
    requires
        1 <= i <= sw <= MAX_EXTENT,
        1 <= j <= sh <= MAX_EXTENT,
        start.x + sw - 1 <= i32::MAX,
        start.z + sh - 1 <= i32::MAX,
        sw * sh <= u32::MAX,
        filled_before(
            *old(c_mat),
            seed,
            start.x as int,
            start.z as int,
            sw as int,
            sh as int,
            i as int,
            j as int,
        ),
    ensures
        filled_before(
            *final(c_mat),
            seed,
            start.x as int,
            start.z as int,
            sw as int,
            sh as int,
            i as int,
            j + 1,
        ),
{
    let ghost x0 = start.x as int;
    let ghost z0 = start.z as int;
    let up = c_mat.get(i - 1, j);
    let left = c_mat.get(i, j - 1);
    let diag = c_mat.get(i - 1, j - 1);
    let x = start.x + (i as i32 - 1);
    let z = start.z + (j as i32 - 1);
    let here: u64 = if is_slimechunk(seed, x, z) {
        1
    } else {
        0
    };
    proof {
        assert(up == old(c_mat).at(i - 1, j as int));
        assert(left == old(c_mat).at(i as int, j - 1));
        assert(diag == old(c_mat).at(i - 1, j - 1));
        lemma_fill_value(seed, x0, z0, sw as int, sh as int, i as int, j as int);
    }
    let v = (up as u64 + left as u64 - diag as u64 + here) as u32;
    c_mat.set(i, j, v);
    proof {
        assert(v == rect_count(seed, x0, z0, i as int, j as int));
        assert forall|p: int, q: int| 0 <= p <= sw && 0 <= q <= sh implies #[trigger] c_mat.at(p, q)
            == (if p < i || (p == i && q < j + 1) {
            rect_count(seed, x0, z0, p, q)
        } else {
            0
        }) by {
            assert(c_mat.at(p, q) == if p == i && q == j {
                v
            } else {
                old(c_mat).at(p, q)
            });
        }
    }
}

/// Fills the summed-area table of the rectangle of `sw` by `sh` chunks at
/// `start`: row `i`, column `j` counts the slime chunks among the first `i`
/// by `j` chunks. Row 0 and column 0 stay zero.
fn build_table(seed: i64, start: ChunkPoint, sw: usize, sh: usize) -> (t: CountTable)
    requires
        1 <= sw <= MAX_EXTENT,
        1 <= sh <= MAX_EXTENT,
        start.x + sw - 1 <= i32::MAX,
        start.z + sh - 1 <= i32::MAX,
        sw * sh <= u32::MAX,
        (sw + 1) * (sh + 1) * 4 <= isize::MAX,
    ensures
        table_shape(t) == ((sw + 1) as nat, (sh + 1) as nat),
        forall|i: int, j: int|
            0 <= i <= sw && 0 <= j <= sh ==> #[trigger] t.at(i, j) == rect_count(
                seed,
                start.x as int,
                start.z as int,
                i,
                j,
            ),
        forall|i: int, j: int|
            0 <= i <= sw && 0 <= j <= sh && (i == 0 || j == 0) ==> #[trigger] t.at(i, j) == 0,
{
    let mut c_mat = CountTable::zeros(sw + 1, sh + 1);
    let ghost x0 = start.x as int;
    let ghost z0 = start.z as int;

    // the order matters: each count is made of three earlier ones
    let mut i: usize = 1;
    proof {
        assert forall|p: int, q: int| 0 <= p <= sw && 0 <= q <= sh implies #[trigger] c_mat.at(p, q)
            == (if p < 1 || (p == 1 && q < 1) {
            rect_count(seed, x0, z0, p, q)
        } else {
            0
        }) by {
            lemma_rect_flat(seed, x0, z0, p);
        }
    }
    while i <= sw
        invariant
            1 <= i <= sw + 1,
            1 <= sw <= MAX_EXTENT,
            1 <= sh <= MAX_EXTENT,
            x0 == start.x,
            z0 == start.z,
            start.x + sw - 1 <= i32::MAX,
            start.z + sh - 1 <= i32::MAX,
            sw * sh <= u32::MAX,
            filled_before(c_mat, seed, x0, z0, sw as int, sh as int, i as int, 1),
        decreases sw + 1 - i,
    {
        let mut j: usize = 1;
        while j <= sh
            invariant
                1 <= i <= sw,
                1 <= j <= sh + 1,
                1 <= sw <= MAX_EXTENT,
                1 <= sh <= MAX_EXTENT,
                x0 == start.x,
                z0 == start.z,
                start.x + sw - 1 <= i32::MAX,
                start.z + sh - 1 <= i32::MAX,
                sw * sh <= u32::MAX,
                filled_before(c_mat, seed, x0, z0, sw as int, sh as int, i as int, j as int),
            decreases sh + 1 - j,
        {
            fill_cell(&mut c_mat, seed, start, sw, sh, i, j);
            j += 1;
        }
        proof {
            assert forall|p: int, q: int| 0 <= p <= sw && 0 <= q <= sh implies #[trigger] c_mat.at(
                p,
                q,
            ) == (if p < i + 1 || (p == i + 1 && q < 1) {
                rect_count(seed, x0, z0, p, q)
            } else {
                0
            }) by {
                lemma_rect_flat(seed, x0, z0, p);
            }
        }
        i += 1;
    }
    proof {
        assert forall|i: int, j: int|
            0 <= i <= sw && 0 <= j <= sh && (i == 0 || j == 0) implies #[trigger] c_mat.at(i, j)
            == 0 by {
            lemma_rect_flat(seed, x0, z0, i);
        }
    }
    c_mat
}

/// Whether `r` is the first best of the windows that the search looks at
/// before offset `(a, b)`: `r` is a window inside the rectangle, the first
/// one or one before `(a, b)`; none before `(a, b)` holds more slime chunks
/// than `r` counts, and each one before `r` holds strictly fewer.
pub open spec fn is_first_best(
    seed: i64,
    start: ChunkPoint,
    end: ChunkPoint,
    w: int,
    h: int,
    a: int,
    b: int,
    r: SearchResult,
) -> bool {
    let a0 = r.p1.x - start.x;
    let b0 = r.p1.z - start.z;
    &&& is_placement(start, end, a0, b0, w, h)
    &&& comes_before(a0, b0, a, b) || (a0 == 0 && b0 == 0)
    &&& r == window_at(seed, start, a0, b0, w, h)
    &&& forall|p: int, q: int|
        is_placement(start, end, p, q, w, h) && comes_before(p, q, a, b) ==> #[trigger] window_count(
            seed,
            start,
            p,
            q,
            w,
            h,
        ) <= r.slime_chunks
    &&& forall|p: int, q: int|
        is_placement(start, end, p, q, w, h) && comes_before(p, q, a0, b0)
            ==> #[trigger] window_count(seed, start, p, q, w, h) < r.slime_chunks
}

/// The window at a placement, as a result, has the placement's corners and
/// a count that fits.
proof fn lemma_window_at(seed: i64, start: ChunkPoint, end: ChunkPoint, w: int, h: int, a: int, b: int)
    requires
        1 <= w,
        1 <= h,
        w * h <= u32::MAX,
        is_placement(start, end, a, b, w, h),
    ensures
        0 <= window_count(seed, start, a, b, w, h) <= w * h,
        window_at(seed, start, a, b, w, h).slime_chunks == window_count(seed, start, a, b, w, h),
        window_at(seed, start, a, b, w, h).p1.x == start.x + a,
        window_at(seed, start, a, b, w, h).p1.z == start.z + b,
        window_at(seed, start, a, b, w, h).p2.x == start.x + a + w - 1,
        window_at(seed, start, a, b, w, h).p2.z == start.z + b + h - 1,
{
    lemma_rect_bounds(seed, start.x + a, start.z + b, w, h);
}

/// The best window before an offset is the first best of the windows before
/// it.
proof fn lemma_best_before(
    seed: i64,
    start: ChunkPoint,
    end: ChunkPoint,
    w: int,
    h: int,
    a: int,
    b: int,
)
    requires
        window_fits(start, end, w, h),
        w * h <= u32::MAX,
        0 <= a <= extent_x(start, end) - w + 1,
        0 <= b <= extent_z(start, end) - h + 1,
        a <= extent_x(start, end) - w || b == 0,
    ensures
        is_first_best(seed, start, end, w, h, a, b, best_before(seed, start, end, w, h, a, b)),
    decreases a, b,
{
    let r = best_before(seed, start, end, w, h, a, b);
    lemma_window_at(seed, start, end, w, h, 0, 0);
    if b > 0 {
        let prev = best_before(seed, start, end, w, h, a, b - 1);
        let cand = window_at(seed, start, a, b - 1, w, h);
        lemma_best_before(seed, start, end, w, h, a, b - 1);
        lemma_window_at(seed, start, end, w, h, a, b - 1);
        assert(r == cand.greater(prev));
        assert forall|p: int, q: int|
            is_placement(start, end, p, q, w, h) && comes_before(p, q, a, b) implies #[trigger] window_count(
            seed,
            start,
            p,
            q,
            w,
            h,
        ) <= r.slime_chunks by {
            if !(p == a && q == b - 1) {
                assert(comes_before(p, q, a, b - 1));
            }
        }
        if cand.slime_chunks > prev.slime_chunks {
            assert forall|p: int, q: int|
                is_placement(start, end, p, q, w, h) && comes_before(
                    p,
                    q,
                    a,
                    b - 1,
                ) implies #[trigger] window_count(seed, start, p, q, w, h) < r.slime_chunks by {}
        }
    } else if a > 0 {
        let nb = extent_z(start, end) - h;
        lemma_best_before(seed, start, end, w, h, a - 1, nb + 1);
        let prev = best_before(seed, start, end, w, h, a - 1, nb + 1);
        assert(r == prev);
        assert forall|p: int, q: int|
            is_placement(start, end, p, q, w, h) && comes_before(p, q, a, b) implies #[trigger] window_count(
            seed,
            start,
            p,
            q,
            w,
            h,
        ) <= r.slime_chunks by {
            assert(comes_before(p, q, a - 1, nb + 1));
        }
    }
}

/// What the search returns, said without the order in which it looks. The
/// result is one of the windows inside the rectangle, with its corners and
/// the number of slime chunks in it. No window inside the rectangle holds
/// more, and every window that comes before it, by increasing `x` and then
/// by increasing `z`, holds strictly fewer: the search finds the maximum
/// that counting every window anew would find, at the first window that
/// attains it.
pub proof fn lemma_search_finds_first_maximum(
    seed: i64,
    start: ChunkPoint,
    end: ChunkPoint,
    w: int,
    h: int,
)
    requires
        window_fits(start, end, w, h),
        w * h <= u32::MAX,
    ensures
        ({
            let r = best_window(seed, start, end, w, h);
            let a0 = r.p1.x - start.x;
            let b0 = r.p1.z - start.z;
            &&& r.seed == seed
            &&& is_placement(start, end, a0, b0, w, h)
            &&& r == window_at(seed, start, a0, b0, w, h)
            &&& r.p2.x == r.p1.x + w - 1
            &&& r.p2.z == r.p1.z + h - 1
            &&& start.x <= r.p1.x && r.p2.x <= end.x
            &&& start.z <= r.p1.z && r.p2.z <= end.z
            &&& r.slime_chunks == rect_count(seed, r.p1.x as int, r.p1.z as int, w, h)
            &&& r.slime_chunks <= w * h
            &&& forall|p: int, q: int|
                is_placement(start, end, p, q, w, h) ==> #[trigger] window_count(
                    seed,
                    start,
                    p,
                    q,
                    w,
                    h,
                ) <= r.slime_chunks
            &&& forall|p: int, q: int|
                is_placement(start, end, p, q, w, h) && comes_before(p, q, a0, b0)
                    ==> #[trigger] window_count(seed, start, p, q, w, h) < r.slime_chunks
        }),
{
    let na = extent_x(start, end) - w;
    let r = best_window(seed, start, end, w, h);
    lemma_best_before(seed, start, end, w, h, na + 1, 0);
    assert forall|p: int, q: int| is_placement(start, end, p, q, w, h) implies #[trigger] window_count(
        seed,
        start,
        p,
        q,
        w,
        h,
    ) <= r.slime_chunks by {
        assert(comes_before(p, q, na + 1, 0));
    }
    lemma_window_at(seed, start, end, w, h, r.p1.x - start.x, r.p1.z - start.z);
}

/// The search finds what brute force finds: its count is the greatest
/// number of slime chunks that any window inside the rectangle holds.
pub proof fn lemma_search_equals_brute_force(
    seed: i64,
    start: ChunkPoint,
    end: ChunkPoint,
    w: int,
    h: int,
)
    requires
        window_fits(start, end, w, h),
        w * h <= u32::MAX,
    ensures
        forall|p: int, q: int|
            0 <= p <= extent_x(start, end) - w && 0 <= q <= extent_z(start, end) - h
                ==> #[trigger] rect_count(seed, start.x + p, start.z + q, w, h) <= best_window(
                seed,
                start,
                end,
                w,
                h,
            ).slime_chunks,
        exists|p: int, q: int|
            0 <= p <= extent_x(start, end) - w && 0 <= q <= extent_z(start, end) - h
                && #[trigger] rect_count(seed, start.x + p, start.z + q, w, h) == best_window(
                seed,
                start,
                end,
                w,
                h,
            ).slime_chunks,
{
    lemma_search_finds_first_maximum(seed, start, end, w, h);
    let r = best_window(seed, start, end, w, h);
    assert forall|p: int, q: int|
        0 <= p <= extent_x(start, end) - w && 0 <= q <= extent_z(start, end)
            - h implies #[trigger] rect_count(seed, start.x + p, start.z + q, w, h)
        <= r.slime_chunks by {
        assert(is_placement(start, end, p, q, w, h));
        assert(window_count(seed, start, p, q, w, h) <= r.slime_chunks);
    }
    let a0 = r.p1.x - start.x;
    let b0 = r.p1.z - start.z;
    assert(rect_count(seed, start.x + a0, start.z + b0, w, h) == r.slime_chunks);
}

/// The four prefix counts around a window give its count, with no
/// subtraction going below zero, and the count fits a `u32`.
proof fn lemma_window_value(
    seed: i64,
    x0: int,
    z0: int,
    sw: int,
    sh: int,
    w: int,
    h: int,
    a: int,
    b: int,
)
    requires
        0 <= a,
        0 <= b,
        0 <= w,
        0 <= h,
        a + w <= sw,
        b + h <= sh,
        sw * sh <= u32::MAX,
    ensures
        rect_count(seed, x0, z0, a + w, b + h) + rect_count(seed, x0, z0, a, b) - rect_count(
            seed,
            x0,
            z0,
            a,
            b + h,
        ) - rect_count(seed, x0, z0, a + w, b) == rect_count(seed, x0 + a, z0 + b, w, h),
        0 <= rect_count(seed, x0 + a, z0 + b, w, h) <= u32::MAX,
        0 <= rect_count(seed, x0, z0, a, b),
        rect_count(seed, x0, z0, a, b + h) <= rect_count(seed, x0, z0, a + w, b + h),
{
    lemma_window_from_prefixes(seed, x0, z0, a + w, b + h, w, h);
    crate::alg::count::lemma_rect_split_columns(seed, x0, z0, a + w, b + h, w);
    lemma_rect_bounds(seed, x0 + a, z0, w, b + h);
    lemma_rect_bounds(seed, x0 + a, z0 + b, w, h);
    lemma_rect_bounds(seed, x0, z0, a, b);
    assert(w * h <= sw * sh) by (nonlinear_arith)
        requires
            0 <= w <= sw,
            0 <= h <= sh,
    ;
}

/// The count of the window at offset `(a, b)`, read off the table by
/// inclusion and exclusion.
fn window_count_of(
    c_mat: &CountTable,
    seed: i64,
    start: ChunkPoint,
    sw: usize,
    sh: usize,
    width: usize,
    height: usize,
    a: usize,
    b: usize,
) -> (count: u32)
    requires
        sw * sh <= u32::MAX,
        a + width <= sw,
        b + height <= sh,
        table_shape(*c_mat) == ((sw + 1) as nat, (sh + 1) as nat),
        forall|i: int, j: int|
            0 <= i <= sw && 0 <= j <= sh ==> #[trigger] c_mat.at(i, j) == rect_count(
                seed,
                start.x as int,
                start.z as int,
                i,
                j,
            ),
    ensures
        count == window_count(seed, start, a as int, b as int, width as int, height as int),
{
    let i = a + width;
    let j = b + height;
    let whole = c_mat.get(i, j);
    let corner = c_mat.get(a, b);
    let above = c_mat.get(a, j);
    let beside = c_mat.get(i, b);
    proof {
        assert(whole == c_mat.at(i as int, j as int));
        assert(corner == c_mat.at(a as int, b as int));
        assert(above == c_mat.at(a as int, j as int));
        assert(beside == c_mat.at(i as int, b as int));
        lemma_window_value(
            seed,
            start.x as int,
            start.z as int,
            sw as int,
            sh as int,
            width as int,
            height as int,
            a as int,
            b as int,
        );
    }
    (whole as u64 + corner as u64 - above as u64 - beside as u64) as u32
}

/// Searches the rectangle from `start` to `end`, both included, for the
/// window of `width` by `height` chunks that holds the most slime chunks.
///
/// The search is refused where the rectangle has its corners in the wrong
/// order, a side longer than the world or more chunks than a table can
/// count, and where the window has no area or does not fit the rectangle.
///
/// Every window inside the rectangle is looked at, by increasing `x`, and
/// for each `x` by increasing `z`; one with as many slime chunks as an
/// earlier one does not replace it. The result is the first of the windows
/// that hold the most: where none holds a slime chunk, the window at
/// `start`, with a count of zero.
pub fn search_rect(seed: i64, start: ChunkPoint, end: ChunkPoint, width: usize, height: usize) -> (r:
    Result<SearchResult, SearchError>)
    ensures
        r == match rejection(start, end, width as int, height as int) {
            Some(e) => Err::<SearchResult, SearchError>(e),
            None => Ok(best_window(seed, start, end, width as int, height as int)),
        },
{
    if start.x > end.x || start.z > end.z {
        return Err(SearchError::InvertedBounds);
    }
    // the width and height of the search area
    let wide: u64 = (end.x as i64 - start.x as i64 + 1) as u64;
    let high: u64 = (end.z as i64 - start.z as i64 + 1) as u64;

    // the world has a sidelength of 3.75 million chunks
    if wide > MAX_EXTENT as u64 || high > MAX_EXTENT as u64 {
        return Err(SearchError::TooWide);
    }
    assert(wide * high <= 3_750_000 * 3_750_000 && (wide + 1) * (high + 1) <= 3_750_001 * 3_750_001)
        by (nonlinear_arith)
        requires
            wide <= 3_750_000,
            high <= 3_750_000,
    ;
    if wide * high > u32::MAX as u64 || (wide + 1) * (high + 1) * 4 > isize::MAX as u64 {
        return Err(SearchError::TooLarge);
    }
    let search_width = wide as usize;
    let search_height = high as usize;
    let ghost w = width as int;
    let ghost h = height as int;
    if width == 0 || height == 0 || width > search_width || height > search_height {
        return Err(SearchError::BadWindow);
    }
    let c_mat = build_table(seed, start, search_width, search_height);

    let last_a = search_width - width;
    let last_b = search_height - height;
    let first = window_count_of(
        &c_mat,
        seed,
        start,
        search_width,
        search_height,
        width,
        height,
        0,
        0,
    );
    let mut best = SearchResult {
        seed,
        p1: start,
        p2: ChunkPoint {
            x: start.x + (width as i32 - 1),
            z: start.z + (height as i32 - 1),
        },
        slime_chunks: first,
    };
    let mut a: usize = 0;
    while a <= last_a
        invariant
            0 <= a <= last_a + 1,
            last_a == search_width - width,
            last_b == search_height - height,
            1 <= width <= search_width,
            1 <= height <= search_height,
            search_width == extent_x(start, end),
            search_height == extent_z(start, end),
            search_width <= MAX_EXTENT,
            search_height <= MAX_EXTENT,
            search_width * search_height <= u32::MAX,
            w == width,
            h == height,
            table_shape(c_mat) == ((search_width + 1) as nat, (search_height + 1) as nat),
            forall|i: int, j: int|
                0 <= i <= search_width && 0 <= j <= search_height ==> #[trigger] c_mat.at(i, j)
                    == rect_count(seed, start.x as int, start.z as int, i, j),
            best == best_before(seed, start, end, w, h, a as int, 0),
        decreases last_a + 1 - a,
    {
        let mut b: usize = 0;
        while b <= last_b
            invariant
                0 <= a <= last_a,
                0 <= b <= last_b + 1,
                last_a == search_width - width,
                last_b == search_height - height,
                1 <= width <= search_width,
                1 <= height <= search_height,
                search_width == extent_x(start, end),
                search_height == extent_z(start, end),
                search_width <= MAX_EXTENT,
                search_height <= MAX_EXTENT,
                search_width * search_height <= u32::MAX,
                w == width,
                h == height,
                table_shape(c_mat) == ((search_width + 1) as nat, (search_height + 1) as nat),
                forall|i: int, j: int|
                    0 <= i <= search_width && 0 <= j <= search_height ==> #[trigger] c_mat.at(i, j)
                        == rect_count(seed, start.x as int, start.z as int, i, j),
                best == best_before(seed, start, end, w, h, a as int, b as int),
            decreases last_b + 1 - b,
        {
            let slime_count = window_count_of(
                &c_mat,
                seed,
                start,
                search_width,
                search_height,
                width,
                height,
                a,
                b,
            );
            if slime_count > best.slime_chunks {
                best =
                SearchResult {
                    seed,
                    p1: ChunkPoint { x: start.x + a as i32, z: start.z + b as i32 },
                    p2: ChunkPoint {
                        x: start.x + ((a + width) as i32 - 1),
                        z: start.z + ((b + height) as i32 - 1),
                    },
                    slime_chunks: slime_count,
                };
            }
            b += 1;
        }
        a += 1;
    }
    Ok(best)
}

/// The number of tiles of side `t` along an axis that runs from `lo` to
/// `hi`, both included: the number of chunks on it, divided by `t` and
/// rounded up.
pub open spec fn tile_count(lo: i32, hi: i32, t: int) -> int {
    if hi < lo {
        0
    } else {
        (hi - lo) / t + 1
    }
}

/// The least corner of tile `(kx, kz)`.
pub open spec fn tile_start(start: ChunkPoint, t: int, kx: int, kz: int) -> ChunkPoint {
    ChunkPoint { x: (start.x + kx * t) as i32, z: (start.z + kz * t) as i32 }
}

/// The greatest corner of tile `(kx, kz)`: a tile has `t` chunks a side, and
/// ends at the end of the domain where that comes first.
pub open spec fn tile_end(start: ChunkPoint, end: ChunkPoint, t: int, kx: int, kz: int)
    -> ChunkPoint {
    ChunkPoint {
        x: if start.x + (kx + 1) * t - 1 < end.x {
            (start.x + (kx + 1) * t - 1) as i32
        } else {
            end.x
        },
        z: if start.z + (kz + 1) * t - 1 < end.z {
            (start.z + (kz + 1) * t - 1) as i32
        } else {
            end.z
        },
    }
}

/// The result of the search of tile `(kx, kz)`. A tile that the window does
/// not fit holds no window, and its result is the empty one.
pub open spec fn tile_best(
    seed: i64,
    start: ChunkPoint,
    end: ChunkPoint,
    w: int,
    h: int,
    t: int,
    kx: int,
    kz: int,
) -> SearchResult {
    let p1 = tile_start(start, t, kx, kz);
    let p2 = tile_end(start, end, t, kx, kz);
    if window_fits(p1, p2, w, h) {
        best_window(seed, p1, p2, w, h)
    } else {
        SearchResult::empty(seed)
    }
}

/// The best result among the tiles before tile `(kx, kz)`, which are taken
/// by increasing `kx`, and for each `kx` by increasing `kz`. The result of
/// the first tile is taken as it is; the result of each later tile replaces
/// the best so far only where its count is strictly greater.
pub open spec fn tiled_before(
    seed: i64,
    start: ChunkPoint,
    end: ChunkPoint,
    w: int,
    h: int,
    t: int,
    kx: int,
    kz: int,
) -> SearchResult
    decreases kx, kz,
{
    if kx < 0 {
        SearchResult::empty(seed)
    } else if kz > 0 {
        if kx == 0 && kz == 1 {
            tile_best(seed, start, end, w, h, t, 0, 0)
        } else {
            tile_best(seed, start, end, w, h, t, kx, kz - 1).greater(
                tiled_before(seed, start, end, w, h, t, kx, kz - 1),
            )
        }
    } else if kx > 0 {
        tiled_before(seed, start, end, w, h, t, kx - 1, tile_count(start.z, end.z, t))
    } else {
        SearchResult::empty(seed)
    }
}

/// The result of the tiled search: the best over all tiles.
pub open spec fn tiled_best(seed: i64, start: ChunkPoint, end: ChunkPoint, w: int, h: int, t: int)
    -> SearchResult {
    tiled_before(seed, start, end, w, h, t, tile_count(start.x, end.x, t), 0)
}

/// Why the tiled search of the domain from `start` to `end` for a window of
/// `w` by `h` chunks, with tiles of side `t`, is refused, if it is. The
/// domain may be of any size; of the tiles the first is the largest, so that
/// all can be searched where the first can.
pub open spec fn tiled_rejection(start: ChunkPoint, end: ChunkPoint, w: int, h: int, t: int)
    -> Option<SearchError> {
    if start.x > end.x || start.z > end.z {
        Some(SearchError::InvertedBounds)
    } else if t <= 0 {
        Some(SearchError::EmptyTile)
    } else if !window_fits(start, end, w, h) {
        Some(SearchError::BadWindow)
    } else {
        rect_rejection(tile_start(start, t, 0, 0), tile_end(start, end, t, 0, 0))
    }
}

/// Tile `k` of an axis of `d + 1` chunks starts on the axis, and only the
/// last tile reaches its end.
proof fn lemma_tile_offset(d: int, t: int, k: int)
    requires
        0 <= d,
        1 <= t,
        0 <= k <= d / t,
    ensures
        0 <= k * t <= d,
        (k + 1) * t == k * t + t,
        k < d / t ==> (k + 1) * t <= d,
        k == d / t ==> (k + 1) * t > d,
{
    let q = d / t;
    vstd::arithmetic::div_mod::lemma_fundamental_div_mod(d, t);
    assert(0 <= d % t < t);
    assert(k * t <= q * t && (k + 1) * t == k * t + t && 0 <= k * t && q * t == t * q)
        by (nonlinear_arith)
        requires
            0 <= k <= q,
            1 <= t,
    ;
    if k + 1 <= q {
        assert((k + 1) * t <= q * t) by (nonlinear_arith)
            requires
                0 <= k + 1 <= q,
                1 <= t,
        ;
    }
}

/// Every tile lies inside the domain, starts where its number says, and is
/// no larger than the first tile.
pub proof fn lemma_tile_inside(start: ChunkPoint, end: ChunkPoint, t: int, kx: int, kz: int)
    requires
        start.x <= end.x,
        start.z <= end.z,
        1 <= t,
        0 <= kx < tile_count(start.x, end.x, t),
        0 <= kz < tile_count(start.z, end.z, t),
    ensures
        tile_start(start, t, 0, 0) == start,
        tile_start(start, t, kx, kz).x == start.x + kx * t,
        tile_start(start, t, kx, kz).z == start.z + kz * t,
        tile_start(start, t, kx, kz).x <= tile_end(start, end, t, kx, kz).x <= end.x,
        tile_start(start, t, kx, kz).z <= tile_end(start, end, t, kx, kz).z <= end.z,
        tile_end(start, end, t, kx, kz).x < start.x + (kx + 1) * t,
        tile_end(start, end, t, kx, kz).z < start.z + (kz + 1) * t,
        0 <= kx * t,
        0 <= kz * t,
        extent_x(tile_start(start, t, kx, kz), tile_end(start, end, t, kx, kz)) <= extent_x(
            tile_start(start, t, 0, 0),
            tile_end(start, end, t, 0, 0),
        ),
        extent_z(tile_start(start, t, kx, kz), tile_end(start, end, t, kx, kz)) <= extent_z(
            tile_start(start, t, 0, 0),
            tile_end(start, end, t, 0, 0),
        ),
{
    lemma_tile_offset(end.x - start.x, t, kx);
    lemma_tile_offset(end.z - start.z, t, kz);
    assert(0 * t == 0);
    assert((0 + 1) * t == t) by (nonlinear_arith);
}

/// Every tile of a tiled search that is not refused is a rectangle that can
/// be searched.
pub proof fn lemma_tile_fits(
    start: ChunkPoint,
    end: ChunkPoint,
    w: int,
    h: int,
    t: int,
    kx: int,
    kz: int,
)
    requires
        tiled_rejection(start, end, w, h, t) is None,
        0 <= kx < tile_count(start.x, end.x, t),
        0 <= kz < tile_count(start.z, end.z, t),
    ensures
        rect_rejection(tile_start(start, t, kx, kz), tile_end(start, end, t, kx, kz)) is None,
{
    lemma_tile_inside(start, end, t, kx, kz);
    let p1 = tile_start(start, t, kx, kz);
    let p2 = tile_end(start, end, t, kx, kz);
    let f1 = tile_start(start, t, 0, 0);
    let f2 = tile_end(start, end, t, 0, 0);
    let ex = extent_x(p1, p2);
    let ez = extent_z(p1, p2);
    let fx = extent_x(f1, f2);
    let fz = extent_z(f1, f2);
    assert(ex * ez <= fx * fz && (ex + 1) * (ez + 1) <= (fx + 1) * (fz + 1)) by (nonlinear_arith)
        requires
            1 <= ex <= fx,
            1 <= ez <= fz,
    ;
}

/// A window that the search of a tile looks at is a window that the search
/// of the whole domain looks at, with the same chunks in it.
proof fn lemma_tile_window_in_whole(
    seed: i64,
    start: ChunkPoint,
    end: ChunkPoint,
    w: int,
    h: int,
    p1: ChunkPoint,
    p2: ChunkPoint,
    a0: int,
    b0: int,
)
    requires
        start.x <= p1.x <= p2.x <= end.x,
        start.z <= p1.z <= p2.z <= end.z,
        is_placement(p1, p2, a0, b0, w, h),
    ensures
        is_placement(start, end, p1.x - start.x + a0, p1.z - start.z + b0, w, h),
        window_count(seed, p1, a0, b0, w, h) == window_count(
            seed,
            start,
            p1.x - start.x + a0,
            p1.z - start.z + b0,
            w,
            h,
        ),
{
}

/// The result of a tile counts no more slime chunks than the best window of
/// the whole domain: what a tile finds is a window of the whole domain.
proof fn lemma_tile_within_whole(
    seed: i64,
    start: ChunkPoint,
    end: ChunkPoint,
    w: int,
    h: int,
    t: int,
    kx: int,
    kz: int,
)
    requires
        window_fits(start, end, w, h),
        1 <= t,
        w * h <= u32::MAX || !window_fits(
            tile_start(start, t, 0, 0),
            tile_end(start, end, t, 0, 0),
            w,
            h,
        ),
        0 <= kx < tile_count(start.x, end.x, t),
        0 <= kz < tile_count(start.z, end.z, t),
    ensures
        tile_best(seed, start, end, w, h, t, kx, kz).slime_chunks <= best_window(
            seed,
            start,
            end,
            w,
            h,
        ).slime_chunks,
{
    let p1 = tile_start(start, t, kx, kz);
    let p2 = tile_end(start, end, t, kx, kz);
    let whole = best_window(seed, start, end, w, h);
    assert(start.x <= p1.x <= p2.x <= end.x && start.z <= p1.z <= p2.z <= end.z && extent_x(p1, p2)
        <= extent_x(tile_start(start, t, 0, 0), tile_end(start, end, t, 0, 0)) && extent_z(p1, p2)
        <= extent_z(tile_start(start, t, 0, 0), tile_end(start, end, t, 0, 0))) by {
        lemma_tile_inside(start, end, t, kx, kz);
    }
    if window_fits(p1, p2, w, h) {
        let r = best_window(seed, p1, p2, w, h);
        lemma_search_finds_first_maximum(seed, p1, p2, w, h);
        let a0 = r.p1.x - p1.x;
        let b0 = r.p1.z - p1.z;
        lemma_tile_window_in_whole(seed, start, end, w, h, p1, p2, a0, b0);
        lemma_search_finds_first_maximum(seed, start, end, w, h);
        assert(window_count(seed, start, p1.x - start.x + a0, p1.z - start.z + b0, w, h)
            <= whole.slime_chunks);
    }
}

/// The best result among the tiles before a tile counts no more slime
/// chunks than the best window of the whole domain.
proof fn lemma_tiled_before_within_whole(
    seed: i64,
    start: ChunkPoint,
    end: ChunkPoint,
    w: int,
    h: int,
    t: int,
    kx: int,
    kz: int,
)
    requires
        window_fits(start, end, w, h),
        1 <= t,
        w * h <= u32::MAX || !window_fits(
            tile_start(start, t, 0, 0),
            tile_end(start, end, t, 0, 0),
            w,
            h,
        ),
        0 <= kx <= tile_count(start.x, end.x, t),
        0 <= kz <= tile_count(start.z, end.z, t),
        kx < tile_count(start.x, end.x, t) || kz == 0,
    ensures
        tiled_before(seed, start, end, w, h, t, kx, kz).slime_chunks <= best_window(
            seed,
            start,
            end,
            w,
            h,
        ).slime_chunks,
    decreases kx, kz,
{
    if kz > 0 {
        lemma_tile_within_whole(seed, start, end, w, h, t, kx, kz - 1);
        if !(kx == 0 && kz == 1) {
            lemma_tiled_before_within_whole(seed, start, end, w, h, t, kx, kz - 1);
        }
    } else if kx > 0 {
        lemma_tiled_before_within_whole(
            seed,
            start,
            end,
            w,
            h,
            t,
            kx - 1,
            tile_count(start.z, end.z, t),
        );
    }
}

/// The tiled search never counts more slime chunks than the best window of
/// the whole domain holds, whatever the size of the domain: also where the
/// domain is too large for [`search_rect`] to search it in one piece.
pub proof fn lemma_tiled_never_over_reports(
    seed: i64,
    start: ChunkPoint,
    end: ChunkPoint,
    w: int,
    h: int,
    t: int,
)
    requires
        tiled_rejection(start, end, w, h, t) is None,
    ensures
        tiled_best(seed, start, end, w, h, t).slime_chunks <= best_window(
            seed,
            start,
            end,
            w,
            h,
        ).slime_chunks,
{
    let nx = tile_count(start.x, end.x, t);
    vstd::arithmetic::div_mod::lemma_div_pos_is_pos(end.x - start.x, t);
    vstd::arithmetic::div_mod::lemma_div_pos_is_pos(end.z - start.z, t);
    let f1 = tile_start(start, t, 0, 0);
    let f2 = tile_end(start, end, t, 0, 0);
    if window_fits(f1, f2, w, h) {
        let fx = extent_x(f1, f2);
        let fz = extent_z(f1, f2);
        assert(w * h <= fx * fz) by (nonlinear_arith)
            requires
                1 <= w <= fx,
                1 <= h <= fz,
        ;
    }
    lemma_tiled_before_within_whole(seed, start, end, w, h, t, nx, 0);
}

/// Whether tile `(kx, kz)` is one of the tiles of the domain.
pub open spec fn is_tile(start: ChunkPoint, end: ChunkPoint, t: int, kx: int, kz: int) -> bool {
    0 <= kx < tile_count(start.x, end.x, t) && 0 <= kz < tile_count(start.z, end.z, t)
}

/// The best result among the tiles before a tile is the result of one of
/// them, and none of them counts more. Returns that tile.
proof fn lemma_tiled_before_is_maximum(
    seed: i64,
    start: ChunkPoint,
    end: ChunkPoint,
    w: int,
    h: int,
    t: int,
    kx: int,
    kz: int,
) -> (k: (int, int))
    requires
        0 <= kx <= tile_count(start.x, end.x, t),
        0 <= kz <= tile_count(start.z, end.z, t),
        1 <= tile_count(start.z, end.z, t),
        kx < tile_count(start.x, end.x, t) || kz == 0,
        comes_before(0, 0, kx, kz),
    ensures
        is_tile(start, end, t, k.0, k.1),
        comes_before(k.0, k.1, kx, kz),
        tiled_before(seed, start, end, w, h, t, kx, kz) == tile_best(
            seed,
            start,
            end,
            w,
            h,
            t,
            k.0,
            k.1,
        ),
        forall|p: int, q: int|
            is_tile(start, end, t, p, q) && comes_before(p, q, kx, kz) ==> (#[trigger] tile_best(
                seed,
                start,
                end,
                w,
                h,
                t,
                p,
                q,
            )).slime_chunks <= tiled_before(seed, start, end, w, h, t, kx, kz).slime_chunks,
    decreases kx, kz,
{
    let nz = tile_count(start.z, end.z, t);
    if kz > 0 {
        if kx == 0 && kz == 1 {
            (0, 0)
        } else {
            let prev = lemma_tiled_before_is_maximum(seed, start, end, w, h, t, kx, kz - 1);
            let here = tile_best(seed, start, end, w, h, t, kx, kz - 1);
            let before = tiled_before(seed, start, end, w, h, t, kx, kz - 1);
            assert forall|p: int, q: int|
                is_tile(start, end, t, p, q) && comes_before(p, q, kx, kz) implies (#[trigger] tile_best(
                seed,
                start,
                end,
                w,
                h,
                t,
                p,
                q,
            )).slime_chunks <= here.greater(before).slime_chunks by {
                if !(p == kx && q == kz - 1) {
                    assert(comes_before(p, q, kx, kz - 1));
                }
            }
            if here.slime_chunks > before.slime_chunks {
                (kx, kz - 1)
            } else {
                prev
            }
        }
    } else {
        let prev = lemma_tiled_before_is_maximum(seed, start, end, w, h, t, kx - 1, nz);
        assert forall|p: int, q: int|
            is_tile(start, end, t, p, q) && comes_before(p, q, kx, kz) implies (#[trigger] tile_best(
            seed,
            start,
            end,
            w,
            h,
            t,
            p,
            q,
        )).slime_chunks <= tiled_before(seed, start, end, w, h, t, kx, kz).slime_chunks by {
            assert(comes_before(p, q, kx - 1, nz));
        }
        prev
    }
}

/// The tiled search is a reduction of the results of the tiles to the one
/// with the greatest count: its result is the result of one of the tiles,
/// and no tile counts more. The count therefore does not depend on the
/// order in which the tiles are taken.
pub proof fn lemma_tiled_is_maximum(
    seed: i64,
    start: ChunkPoint,
    end: ChunkPoint,
    w: int,
    h: int,
    t: int,
)
    requires
        start.x <= end.x,
        start.z <= end.z,
        1 <= t,
    ensures
        forall|p: int, q: int|
            is_tile(start, end, t, p, q) ==> (#[trigger] tile_best(
                seed,
                start,
                end,
                w,
                h,
                t,
                p,
                q,
            )).slime_chunks <= tiled_best(seed, start, end, w, h, t).slime_chunks,
        exists|p: int, q: int|
            is_tile(start, end, t, p, q) && #[trigger] tile_best(seed, start, end, w, h, t, p, q)
                == tiled_best(seed, start, end, w, h, t),
{
    let nx = tile_count(start.x, end.x, t);
    vstd::arithmetic::div_mod::lemma_div_pos_is_pos(end.x - start.x, t);
    vstd::arithmetic::div_mod::lemma_div_pos_is_pos(end.z - start.z, t);
    let k = lemma_tiled_before_is_maximum(seed, start, end, w, h, t, nx, 0);
    assert forall|p: int, q: int| is_tile(start, end, t, p, q) implies (#[trigger] tile_best(
        seed,
        start,
        end,
        w,
        h,
        t,
        p,
        q,
    )).slime_chunks <= tiled_best(seed, start, end, w, h, t).slime_chunks by {
        assert(comes_before(p, q, nx, 0));
    }
    assert(is_tile(start, end, t, k.0, k.1) && tile_best(seed, start, end, w, h, t, k.0, k.1)
        == tiled_best(seed, start, end, w, h, t));
}

/// Where the whole domain is one tile (no side of it is longer than `t`),
/// the tiled search returns what the search of the whole domain returns.
pub proof fn lemma_single_tile_equals_whole(
    seed: i64,
    start: ChunkPoint,
    end: ChunkPoint,
    w: int,
    h: int,
    t: int,
)
    requires
        rejection(start, end, w, h) is None,
        extent_x(start, end) <= t,
        extent_z(start, end) <= t,
    ensures
        tiled_rejection(start, end, w, h, t) is None,
        tiled_best(seed, start, end, w, h, t) == best_window(seed, start, end, w, h),
{
    let dx = end.x - start.x;
    let dz = end.z - start.z;
    vstd::arithmetic::div_mod::lemma_basic_div(dx, t);
    vstd::arithmetic::div_mod::lemma_basic_div(dz, t);
    assert(tile_count(start.x, end.x, t) == 1);
    assert(tile_count(start.z, end.z, t) == 1);
    assert(0 * t == 0);
    assert((0 + 1) * t == t) by (nonlinear_arith);
    assert(tile_start(start, t, 0, 0) == start);
    assert(tile_end(start, end, t, 0, 0) == end);
    assert(tiled_before(seed, start, end, w, h, t, 0, 1) == tile_best(
        seed,
        start,
        end,
        w,
        h,
        t,
        0,
        0,
    ));
    assert(tiled_before(seed, start, end, w, h, t, 1, 0) == tiled_before(
        seed,
        start,
        end,
        w,
        h,
        t,
        0,
        1,
    ));
}

/// The two ends of tile `k` along an axis that runs from `lo` to `hi`.
fn tile_span(lo: i32, hi: i32, tile: usize, k: u64) -> (r: (i32, i32))
    requires
        lo <= hi,
        1 <= tile,
        k < tile_count(lo, hi, tile as int),
    ensures
        r.0 == lo + k * tile,
        r.1 == (if lo + (k + 1) * tile - 1 < hi {
            (lo + (k + 1) * tile - 1) as i32
        } else {
            hi
        }),
        r.0 <= r.1 <= hi,
{
    proof {
        lemma_tile_offset(hi - lo, tile as int, k as int);
    }
    let d: u64 = (hi as i64 - lo as i64) as u64;
    let side = tile as u64;
    let off: u64 = k * side;
    let p1: i32 = (lo as i64 + off as i64) as i32;
    let p2: i32 = if d - off >= side {
        (p1 as i64 + (side - 1) as i64) as i32
    } else {
        hi
    };
    (p1, p2)
}

/// Searches the domain from `start` to `end` tile by tile, with square tiles
/// of `tile` chunks a side, and returns the best of what the tiles hold.
///
/// The domain may be larger than one search can take; only each tile has to
/// be a rectangle that [`search_rect`] accepts. The window has to have an
/// area and to fit the domain. A tile that the window does not fit holds no
/// window.
///
/// A window is found only where it lies inside one tile, so that the result
/// may count fewer slime chunks than the best window of the whole domain,
/// and never more. Of tiles with the same count the first is kept.
pub fn search_rect_tiled(
    seed: i64,
    start: ChunkPoint,
    end: ChunkPoint,
    width: usize,
    height: usize,
    tile: usize,
) -> (r: Result<SearchResult, SearchError>)
    ensures
        r == match tiled_rejection(start, end, width as int, height as int, tile as int) {
            Some(e) => Err::<SearchResult, SearchError>(e),
            None => Ok(tiled_best(seed, start, end, width as int, height as int, tile as int)),
        },
{
    if start.x > end.x || start.z > end.z {
        return Err(SearchError::InvertedBounds);
    }
    if tile == 0 {
        return Err(SearchError::EmptyTile);
    }
    let w: u64 = (end.x as i64 - start.x as i64) as u64;
    let h: u64 = (end.z as i64 - start.z as i64) as u64;
    if width == 0 || height == 0 || width as u64 > w + 1 || height as u64 > h + 1 {
        return Err(SearchError::BadWindow);
    }
    let ghost gw = width as int;
    let ghost gh = height as int;
    let ghost t = tile as int;
    let side = tile as u64;
    proof {
        vstd::arithmetic::div_mod::lemma_div_pos_is_pos(w as int, t);
        vstd::arithmetic::div_mod::lemma_div_pos_is_pos(h as int, t);
        vstd::arithmetic::div_mod::lemma_div_is_ordered_by_denominator(w as int, 1, t);
        vstd::arithmetic::div_mod::lemma_div_is_ordered_by_denominator(h as int, 1, t);
    }
    // the first tile is the largest: where it can be searched, all can
    let (_, first_x) = tile_span(start.x, end.x, tile, 0);
    let (_, first_z) = tile_span(start.z, end.z, tile, 0);
    let fw = (first_x as i64 - start.x as i64 + 1) as u64;
    let fh = (first_z as i64 - start.z as i64 + 1) as u64;
    proof {
        assert(0 * t == 0);
        assert((0 + 1) * t == t) by (nonlinear_arith);
        assert(tile_start(start, t, 0, 0) == start);
        assert(tile_end(start, end, t, 0, 0) == (ChunkPoint { x: first_x, z: first_z }));
    }
    if fw > MAX_EXTENT as u64 || fh > MAX_EXTENT as u64 {
        return Err(SearchError::TooWide);
    }
    assert(fw * fh <= 3_750_000 * 3_750_000 && (fw + 1) * (fh + 1) <= 3_750_001 * 3_750_001)
        by (nonlinear_arith)
        requires
            fw <= 3_750_000,
            fh <= 3_750_000,
    ;
    if fw * fh > u32::MAX as u64 || (fw + 1) * (fh + 1) * 4 > isize::MAX as u64 {
        return Err(SearchError::TooLarge);
    }
    let nx: u64 = w / side + 1;
    let nz: u64 = h / side + 1;
    let mut best = SearchResult::default(seed);
    let mut kx: u64 = 0;
    while kx < nx
        invariant
            0 <= kx <= nx,
            nx == tile_count(start.x, end.x, t),
            nz == tile_count(start.z, end.z, t),
            1 <= nz,
            start.x <= end.x,
            start.z <= end.z,
            tiled_rejection(start, end, gw, gh, t) is None,
            t == tile,
            gw == width,
            gh == height,
            best == tiled_before(seed, start, end, gw, gh, t, kx as int, 0),
        decreases nx - kx,
    {
        let mut kz: u64 = 0;
        while kz < nz
            invariant
                0 <= kx < nx,
                0 <= kz <= nz,
                nx == tile_count(start.x, end.x, t),
                nz == tile_count(start.z, end.z, t),
                start.x <= end.x,
                start.z <= end.z,
                tiled_rejection(start, end, gw, gh, t) is None,
                t == tile,
                gw == width,
                gh == height,
                best == tiled_before(seed, start, end, gw, gh, t, kx as int, kz as int),
            decreases nz - kz,
        {
            proof {
                lemma_tile_inside(start, end, t, kx as int, kz as int);
                lemma_tile_fits(start, end, gw, gh, t, kx as int, kz as int);
            }
            let (x1, x2) = tile_span(start.x, end.x, tile, kx);
            let (z1, z2) = tile_span(start.z, end.z, tile, kz);
            let p1 = ChunkPoint { x: x1, z: z1 };
            let p2 = ChunkPoint { x: x2, z: z2 };
            assert(p1 == tile_start(start, t, kx as int, kz as int));
            assert(p2 == tile_end(start, end, t, kx as int, kz as int));
            let tile_width = (x2 as i64 - x1 as i64 + 1) as u64;
            let tile_height = (z2 as i64 - z1 as i64 + 1) as u64;
            let found = if width as u64 <= tile_width && height as u64 <= tile_height {
                match search_rect(seed, p1, p2, width, height) {
                    Ok(found) => found,
                    Err(e) => {
                        return Err(e);
                    },
                }
            } else {
                // the window does not fit this tile
                SearchResult::default(seed)
            };
            assert(found == tile_best(seed, start, end, gw, gh, t, kx as int, kz as int));
            best = if kx == 0 && kz == 0 {
                found
            } else {
                found.max(best)
            };
            kz += 1;
        }
        kx += 1;
    }
    Ok(best)
}

/// Searches the domain from `start` to `end` in tiles of [`CHUNK_SIZE`]
/// chunks a side, so that no table takes more than 400 megabytes.
pub fn search_rect_par(seed: i64, start: ChunkPoint, end: ChunkPoint, width: usize, height: usize) -> (r:
    Result<SearchResult, SearchError>)
    ensures
        r == match tiled_rejection(start, end, width as int, height as int, CHUNK_SIZE as int) {
            Some(e) => Err::<SearchResult, SearchError>(e),
            None => Ok(
                tiled_best(seed, start, end, width as int, height as int, CHUNK_SIZE as int),
            ),
        },
{
    search_rect_tiled(seed, start, end, width, height, CHUNK_SIZE)
}

} // verus!
