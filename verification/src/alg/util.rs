//! The result of a density search.

use vstd::prelude::*;
use vstd::std_specs::cmp::PartialOrdSpecImpl;
use vstd::string::StringExecFns;
use std::cmp::Ordering;
use crate::rand::slime::{is_slime, is_slimechunk};
use crate::util::point::ChunkPoint;

verus! {

/// The window that a search found: its two corners, both inside it, and the
/// number of slime chunks in it.
#[derive(Copy, Clone, PartialEq, Eq, Structural, Debug)]
pub struct SearchResult {
    pub seed: i64,
    pub p1: ChunkPoint,
    pub p2: ChunkPoint,
    pub slime_chunks: u32,
}

/// How a chunk is drawn on a map: filled where it is a slime chunk.
pub open spec fn chunk_text(seed: i64, x: int, z: int) -> Seq<char> {
    if is_slime(seed, x as i32, z as i32) {
        "██"@
    } else {
        "░░"@
    }
}

/// The first `n` chunks of the row `z` of a map that starts at `x0`.
pub open spec fn row_text(seed: i64, x0: int, z: int, n: int) -> Seq<char>
    decreases n,
{
    if n <= 0 {
        Seq::<char>::empty()
    } else {
        row_text(seed, x0, z, n - 1) + chunk_text(seed, x0 + n - 1, z)
    }
}

/// The first `k` rows of the map of `w` chunks a row that starts at
/// `(x0, z0)`, with a line break between two rows.
pub open spec fn rows_text(seed: i64, x0: int, z0: int, w: int, k: int) -> Seq<char>
    decreases k,
{
    if k <= 0 {
        Seq::<char>::empty()
    } else if k == 1 {
        row_text(seed, x0, z0, w)
    } else {
        rows_text(seed, x0, z0, w, k - 1) + "\n"@ + row_text(seed, x0, z0 + k - 1, w)
    }
}

impl SearchResult {
    /// The map of the window: one row of text for each `z` from the first
    /// corner to the second, in each row two characters for each `x`.
    pub open spec fn map(self) -> Seq<char> {
        rows_text(
            self.seed,
            self.p1.x as int,
            self.p1.z as int,
            self.p2.x - self.p1.x + 1,
            self.p2.z - self.p1.z + 1,
        )
    }

    /// Draws the map of the window.
    pub fn map_text(&self) -> (r: String)
        ensures
            r@ == self.map(),
    {
        let mut text = String::new();
        let mut z: i64 = self.p1.z as i64;
        while z <= self.p2.z as i64
            invariant
                self.p1.z <= z <= self.p2.z + 1 || (z == self.p1.z && self.p1.z > self.p2.z),
                text@ == rows_text(
                    self.seed,
                    self.p1.x as int,
                    self.p1.z as int,
                    self.p2.x - self.p1.x + 1,
                    z - self.p1.z,
                ),
            decreases self.p2.z + 1 - z,
        {
            if z > self.p1.z as i64 {
                text.append("\n");
            }
            let ghost before = text@;
            let mut x: i64 = self.p1.x as i64;
            while x <= self.p2.x as i64
                invariant
                    self.p1.z <= z <= self.p2.z,
                    self.p1.x <= x <= self.p2.x + 1 || (x == self.p1.x && self.p1.x > self.p2.x),
                    text@ == before + row_text(self.seed, self.p1.x as int, z as int, x - self.p1.x),
                decreases self.p2.x + 1 - x,
            {
                if is_slimechunk(self.seed, x as i32, z as i32) {
                    text.append("██");
                } else {
                    text.append("░░");
                }
                x += 1;
            }
            proof {
                if self.p1.x > self.p2.x {
                    assert(row_text(self.seed, self.p1.x as int, z as int, 0)
                        == row_text(
                        self.seed,
                        self.p1.x as int,
                        z as int,
                        self.p2.x - self.p1.x + 1,
                    ));
                }
            }
            z += 1;
        }
        text
    }

    /// The result that stands for nothing found: no slime chunk, both
    /// corners at the origin.
    pub open spec fn empty(seed: i64) -> Self {
        SearchResult {
            seed,
            p1: ChunkPoint { x: 0, z: 0 },
            p2: ChunkPoint { x: 0, z: 0 },
            slime_chunks: 0,
        }
    }

    /// The greater of two results by their count; `other` where the counts
    /// are equal.
    pub open spec fn greater(self, other: Self) -> Self {
        if self.slime_chunks > other.slime_chunks {
            self
        } else {
            other
        }
    }

    /// The result that stands for nothing found.
    pub fn default(seed: i64) -> (r: Self)
        ensures
            r == Self::empty(seed),
    {
        Self { seed, p1: ChunkPoint { x: 0, z: 0 }, p2: ChunkPoint { x: 0, z: 0 }, slime_chunks: 0 }
    }

    /// The greater of two results by their count. Results are ordered by
    /// their count alone; of two with the same count, `other` is returned.
    pub fn max(self, other: Self) -> (r: Self)
        ensures
            r == self.greater(other),
    {
        if self.slime_chunks > other.slime_chunks {
            self
        } else {
            other
        }
    }

    /// The number of chunks between the two corners, both included.
    pub open spec fn area(self) -> int {
        (self.p2.x - self.p1.x + 1) * (self.p2.z - self.p1.z + 1)
    }
}

impl PartialOrd for SearchResult {
    /// Results are ordered by their count alone.
    fn partial_cmp(&self, other: &Self) -> (r: Option<Ordering>) {
        if self.slime_chunks < other.slime_chunks {
            Some(Ordering::Less)
        } else if self.slime_chunks > other.slime_chunks {
            Some(Ordering::Greater)
        } else {
            Some(Ordering::Equal)
        }
    }
}

impl PartialOrdSpecImpl for SearchResult {
    open spec fn obeys_partial_cmp_spec() -> bool {
        true
    }

    open spec fn partial_cmp_spec(&self, other: &Self) -> Option<Ordering> {
        if self.slime_chunks < other.slime_chunks {
            Some(Ordering::Less)
        } else if self.slime_chunks > other.slime_chunks {
            Some(Ordering::Greater)
        } else {
            Some(Ordering::Equal)
        }
    }
}

} // verus!
