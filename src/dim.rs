use vstd::prelude::*;

verus! {

/// The shape of a frame: `Dim(column_count, row_count)`, together with the
/// row-major addressing of its flat buffer.
#[derive(Debug, Clone, Copy, PartialEq, Eq, Structural)]
pub struct Dim(pub usize, pub usize);

impl Dim {
    /// Position of the cell `(row, col)` in a row-major buffer with `cols` columns.
    pub open spec fn cell(cols: int, row: int, col: int) -> int {
        row * cols + col
    }

    pub fn new(x: usize, y: usize) -> (r: Dim)
        ensures
            r.0 == x,
            r.1 == y,
    {
        Dim(x, y)
    }

    /// Number of cells a buffer of this shape holds.
    pub fn expected_len(&self) -> (r: usize)
        requires
            self.0 * self.1 <= usize::MAX,
        ensures
            r == self.0 * self.1,
    {
        self.0 * self.1
    }

    /// Get the start and end index for a row
    pub fn get_row_range(&self, row: usize) -> (r: (usize, usize))
        requires
            self.0 * row + self.0 <= usize::MAX,
        ensures
            r.0 == self.0 * row,
            r.1 == self.0 * row + self.0,
    {
        proof {
            assert(self.0 * row <= self.0 * row + self.0) by (nonlinear_arith);
        }
        let i = self.0 * row;
        (i, i + self.0)
    }

    /// Calculate the position of a value in the buffer from the row number and the index of the
    /// column
    pub fn get_value_index(&self, row_number: usize, column_index: usize) -> (r: usize)
        requires
            row_number * self.0 + column_index <= usize::MAX,
        ensures
            r == Dim::cell(self.0 as int, row_number as int, column_index as int),
    {
        proof {
            assert(row_number * self.0 <= row_number * self.0 + column_index) by (nonlinear_arith);
        }
        (row_number * self.0) + column_index
    }

    pub fn shape(&self) -> (r: (usize, usize))
        ensures
            r == (self.0, self.1),
    {
        (self.0, self.1)
    }
}

impl Default for Dim {
    fn default() -> (r: Dim)
        ensures
            r == Dim(0, 0),
    {
        Dim(0, 0)
    }
}

} // verus!
