//! Counting slime chunks in rectangles, and the identities of the
//! summed-area table.

use vstd::prelude::*;
use crate::rand::slime::is_slime;

verus! {

/// 1 where chunk `(x, z)` is a slime chunk, else 0.
pub open spec fn cell(seed: i64, x: int, z: int) -> int {
    if is_slime(seed, x as i32, z as i32) {
        1
    } else {
        0
    }
}

/// The number of slime chunks among the `h` chunks `(x, z0)`, `(x, z0 + 1)`,
/// and so on.
pub open spec fn column_count(seed: i64, x: int, z0: int, h: int) -> int
    decreases h,
{
    if h <= 0 {
        0
    } else {
        column_count(seed, x, z0, h - 1) + cell(seed, x, z0 + h - 1)
    }
}

/// The number of slime chunks in the rectangle of `w` by `h` chunks whose
/// least corner is `(x0, z0)`.
pub open spec fn rect_count(seed: i64, x0: int, z0: int, w: int, h: int) -> int
    decreases w,
{
    if w <= 0 {
        0
    } else {
        rect_count(seed, x0, z0, w - 1, h) + column_count(seed, x0 + w - 1, z0, h)
    }
}

/// A column of `h` chunks holds from 0 to `h` slime chunks.
pub proof fn lemma_column_bounds(seed: i64, x: int, z0: int, h: int)
    requires
        0 <= h,
    ensures
        0 <= column_count(seed, x, z0, h) <= h,
    decreases h,
{
    if h > 0 {
        lemma_column_bounds(seed, x, z0, h - 1);
    }
}

/// A rectangle holds from 0 slime chunks up to its area.
pub proof fn lemma_rect_bounds(seed: i64, x0: int, z0: int, w: int, h: int)
    requires
        0 <= w,
        0 <= h,
    ensures
        0 <= rect_count(seed, x0, z0, w, h) <= w * h,
    decreases w,
{
    if w > 0 {
        lemma_rect_bounds(seed, x0, z0, w - 1, h);
        lemma_column_bounds(seed, x0 + w - 1, z0, h);
        assert((w - 1) * h + h == w * h) by (nonlinear_arith);
    } else {
        assert(0 * h == 0);
    }
}

/// A rectangle without height holds nothing.
pub proof fn lemma_rect_flat(seed: i64, x0: int, z0: int, w: int)
    ensures
        rect_count(seed, x0, z0, w, 0) == 0,
    decreases w,
{
    if w > 0 {
        lemma_rect_flat(seed, x0, z0, w - 1);
    }
}

/// The recurrence of the summed-area table: a rectangle's count from those
/// of the three rectangles that are one chunk shorter, narrower, or both,
/// and from its far corner.
pub proof fn lemma_rect_recurrence(seed: i64, x0: int, z0: int, w: int, h: int)
    requires
        1 <= w,
        1 <= h,
    ensures
        rect_count(seed, x0, z0, w, h) == rect_count(seed, x0, z0, w - 1, h) + rect_count(
            seed,
            x0,
            z0,
            w,
            h - 1,
        ) - rect_count(seed, x0, z0, w - 1, h - 1) + cell(seed, x0 + w - 1, z0 + h - 1),
{
}

/// A column splits into its first `h - k` chunks and its last `k`.
pub proof fn lemma_column_split(seed: i64, x: int, z0: int, h: int, k: int)
    requires
        0 <= k <= h,
    ensures
        column_count(seed, x, z0, h) == column_count(seed, x, z0, h - k) + column_count(
            seed,
            x,
            z0 + h - k,
            k,
        ),
    decreases k,
{
    if k > 0 {
        lemma_column_split(seed, x, z0, h - 1, k - 1);
    }
}

/// A rectangle splits along `z` into its first `h - k` rows and its last
/// `k`.
pub proof fn lemma_rect_split_rows(seed: i64, x0: int, z0: int, w: int, h: int, k: int)
    requires
        0 <= k <= h,
    ensures
        rect_count(seed, x0, z0, w, h) == rect_count(seed, x0, z0, w, h - k) + rect_count(
            seed,
            x0,
            z0 + h - k,
            w,
            k,
        ),
    decreases w,
{
    if w > 0 {
        lemma_rect_split_rows(seed, x0, z0, w - 1, h, k);
        lemma_column_split(seed, x0 + w - 1, z0, h, k);
    }
}

/// A rectangle splits along `x` into its first `w - k` columns and its last
/// `k`.
pub proof fn lemma_rect_split_columns(seed: i64, x0: int, z0: int, w: int, h: int, k: int)
    requires
        0 <= k <= w,
    ensures
        rect_count(seed, x0, z0, w, h) == rect_count(seed, x0, z0, w - k, h) + rect_count(
            seed,
            x0 + w - k,
            z0,
            k,
            h,
        ),
    decreases k,
{
    if k > 0 {
        lemma_rect_split_columns(seed, x0, z0, w - 1, h, k - 1);
        assert(rect_count(seed, x0 + w - k, z0, k, h) == rect_count(seed, x0 + w - k, z0, k - 1, h)
            + column_count(seed, x0 + w - 1, z0, h));
    }
}

/// Inclusion and exclusion on four prefix counts give the count of a window:
/// the `w` by `h` chunks that end at column `i` and row `j` of the rectangle
/// anchored at `(x0, z0)`.
pub proof fn lemma_window_from_prefixes(seed: i64, x0: int, z0: int, i: int, j: int, w: int, h: int)
    requires
        0 <= w <= i,
        0 <= h <= j,
    ensures
        rect_count(seed, x0, z0, i, j) + rect_count(seed, x0, z0, i - w, j - h) - rect_count(
            seed,
            x0,
            z0,
            i - w,
            j,
        ) - rect_count(seed, x0, z0, i, j - h) == rect_count(seed, x0 + i - w, z0 + j - h, w, h),
{
    lemma_rect_split_columns(seed, x0, z0, i, j, w);
    lemma_rect_split_columns(seed, x0, z0, i, j - h, w);
    lemma_rect_split_rows(seed, x0 + i - w, z0, w, j, h);
}

} // verus!
