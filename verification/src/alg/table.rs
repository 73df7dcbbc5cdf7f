//! The table of counts that the search fills: a two-dimensional array of
//! `ndarray`, seen by the proofs as a map from row and column to count.

use vstd::prelude::*;
use ndarray::Array2;

verus! {

/// A two-dimensional array of counts, indexed by row and column.
#[verifier::external_body]
pub struct CountTable {
    cells: Array2<u32>,
}

/// What a table holds: the count at each pair of a row and a column.
pub uninterp spec fn table_cells(t: CountTable) -> Map<(int, int), u32>;

/// The numbers of rows and of columns that a table was made with.
pub uninterp spec fn table_shape(t: CountTable) -> (nat, nat);

impl CountTable {
    /// The count in row `i`, column `j`.
    pub open spec fn at(self, i: int, j: int) -> u32 {
        table_cells(self)[(i, j)]
    }

    /// `Array2::zeros`: a table of `rows` rows and `cols` columns, every
    /// count zero. It panics where the product of the axis lengths that are
    /// not zero goes beyond `isize::MAX`; with no length zero that product
    /// is the number of counts. The array is backed by one allocation, whose
    /// size in bytes must not go beyond `isize::MAX` either.
    #[verifier::external_body]
    pub(crate) fn zeros(rows: usize, cols: usize) -> (t: CountTable)
        requires
            rows >= 1,
            cols >= 1,
            rows * cols * 4 <= isize::MAX,
        ensures
            table_shape(t) == (rows as nat, cols as nat),
            forall|i: int, j: int| 0 <= i < rows && 0 <= j < cols ==> #[trigger] t.at(i, j) == 0,
    {
        CountTable { cells: Array2::zeros((rows, cols)) }
    }

    /// Indexing of `Array2` by a pair: the count in row `i`, column `j`.
    #[verifier::external_body]
    pub(crate) fn get(&self, i: usize, j: usize) -> (v: u32)
        requires
            i < table_shape(*self).0,
            j < table_shape(*self).1,
        ensures
            v == self.at(i as int, j as int),
    {
        self.cells[[i, j]]
    }

    /// Assignment through the index of `Array2`: row `i`, column `j` becomes
    /// `v`, and nothing else changes.
    #[verifier::external_body]
    pub(crate) fn set(&mut self, i: usize, j: usize, v: u32)
        requires
            i < table_shape(*old(self)).0,
            j < table_shape(*old(self)).1,
        ensures
            table_shape(*final(self)) == table_shape(*old(self)),
            table_cells(*final(self)) == table_cells(*old(self)).insert((i as int, j as int), v),
    {
        self.cells[[i, j]] = v;
    }
}

} // verus!
