use vstd::prelude::*;

use crate::dim::Dim;
use crate::value::Value;

verus! {

/// A buffer of cells that knows its length.
pub trait Container {
    spec fn spec_len(&self) -> nat;

    fn len(&self) -> (r: usize)
        ensures
            r == self.spec_len(),
    ;
}

impl Container for Vec<Value> {
    open spec fn spec_len(&self) -> nat {
        self@.len()
    }

    fn len(&self) -> (r: usize) {
        Vec::len(self)
    }
}

/// A table keyed by column names alone, over a buffer of any kind of container.
#[derive(Debug, Clone)]
pub struct BaseDataFrame<D: Container> {
    columns: Vec<String>,
    data: D,
    dim: Dim,
    ptr: usize,
}

impl<D: Container> BaseDataFrame<D> {
    pub closed spec fn spec_columns(self) -> Seq<String> {
        self.columns@
    }

    pub closed spec fn spec_shape(self) -> (nat, nat) {
        (self.dim.0 as nat, self.dim.1 as nat)
    }

    /// A frame over `data` with the named columns, `rows` rows long.
    pub fn from_parts(columns: Vec<String>, data: D, rows: usize) -> (r: BaseDataFrame<D>)
        ensures
            r.spec_columns() == columns@,
            r.spec_shape() == (columns@.len(), rows as nat),
    {
        let n = columns.len();
        BaseDataFrame { columns, data, dim: Dim::new(n, rows), ptr: 0 }
    }

    pub fn columns(&self) -> (r: &Vec<String>)
        ensures
            r@ == self.spec_columns(),
    {
        &self.columns
    }

    /// Number of rows.
    pub fn size(&self) -> (r: usize)
        ensures
            r == self.spec_shape().1,
    {
        self.dim.1
    }

    /// `(column_count, row_count)`.
    pub fn shape(&self) -> (r: (usize, usize))
        ensures
            r.0 == self.spec_shape().0,
            r.1 == self.spec_shape().1,
    {
        self.dim.shape()
    }

    /// Number of rows.
    pub fn rows(&self) -> (r: usize)
        ensures
            r == self.spec_shape().1,
    {
        self.dim.1
    }
}

} // verus!
