use vstd::prelude::*;

use crate::dataframe::DataFrame;
use crate::schema::{find_name, Schema};
use crate::traits::Get;
use crate::value::Value;

verus! {

/// A restartable walk over a frame's rows: each step gives the next row, and the walk ends
/// after the last one.
#[derive(Debug, Clone, Copy)]
pub struct RowView<'a> {
    ptr: usize,
    df: &'a DataFrame,
}

impl<'a> RowView<'a> {
    pub closed spec fn position(self) -> nat {
        self.ptr as nat
    }

    pub closed spec fn frame(self) -> DataFrame {
        *self.df
    }

    pub fn new(df: &'a DataFrame) -> (r: RowView<'a>)
        ensures
            r.position() == 0,
            r.frame() == *df,
    {
        RowView { ptr: 0, df }
    }

    /// The next row, or `None` once the rows are exhausted.
    pub fn next(&mut self) -> (r: Option<SubView<'a>>)
        requires
            old(self).frame().wf(),
        ensures
            final(self).frame() == old(self).frame(),
            old(self).position() < old(self).frame()@.rows ==> (r matches Some(s) && s.values()
                == old(self).frame()@.row(old(self).position() as int) && s.schema_fields()
                == old(self).frame()@.fields) && final(self).position() == old(self).position() + 1,
            old(self).position() >= old(self).frame()@.rows ==> r is None && final(self).position()
                == old(self).position(),
    {
        let _rows = self.df.size();
        match self.df.row(self.ptr) {
            Some(row) => {
                self.ptr = self.ptr + 1;
                Some(SubView::new(self.df.schema(), RowData::Borrowed(row)))
            },
            None => None,
        }
    }
}

/// A row's cells: borrowed from the frame until first written, then an owned copy.
#[derive(Debug, Clone)]
pub enum RowData<'a> {
    Borrowed(&'a [Value]),
    Owned(Vec<Value>),
}

impl<'a> RowData<'a> {
    pub open spec fn cells(self) -> Seq<Value> {
        match self {
            RowData::Borrowed(s) => s@,
            RowData::Owned(v) => v@,
        }
    }
}

/// One row of a frame, with the frame's schema.
#[derive(Debug, Clone)]
pub struct SubView<'a> {
    schema: &'a Schema,
    data: RowData<'a>,
}

impl<'a> SubView<'a> {
    pub closed spec fn values(self) -> Seq<Value> {
        self.data.cells()
    }

    pub closed spec fn schema_fields(self) -> Seq<crate::schema::Field> {
        self.schema.spec_fields()
    }

    pub fn new(schema: &'a Schema, data: RowData<'a>) -> (r: SubView<'a>)
        ensures
            r.values() == data.cells(),
            r.schema_fields() == schema.spec_fields(),
    {
        SubView { schema, data }
    }

    /// The row's cells.
    pub fn cells(&self) -> (r: &[Value])
        ensures
            r@ == self.values(),
    {
        match &self.data {
            RowData::Borrowed(s) => s,
            RowData::Owned(v) => v.as_slice(),
        }
    }

    /// A copy of the row's cells.
    pub fn data(&self) -> (r: Vec<Value>)
        ensures
            r@.len() == self.values().len(),
            forall|i: int| 0 <= i < r@.len() ==> (#[trigger] r@[i]).same(self.values()[i]),
    {
        let cells = self.cells();
        let mut out: Vec<Value> = Vec::new();
        let mut i: usize = 0;
        while i < cells.len()
            invariant
                cells@ == self.values(),
                i <= cells@.len(),
                out@.len() == i,
                forall|j: int| 0 <= j < i ==> (#[trigger] out@[j]).same(cells@[j]),
            decreases cells@.len() - i,
        {
            out.push(cells[i].clone());
            i += 1;
        }
        out
    }

    /// The column names, in order.
    pub fn columns(&self) -> (r: Vec<String>)
        ensures
            r@.map_values(|s: String| s@) == self.schema_fields().map_values(|f: crate::schema::Field| f.name@),
    {
        self.schema.field_names()
    }

    pub fn column_index(&self, name: &str) -> (r: Option<usize>)
        ensures
            r matches Some(i) ==> find_name(self.schema_fields(), name@) == Some(i as int),
            r is None ==> find_name(self.schema_fields(), name@) is None,
    {
        self.schema.find_index(name)
    }

    pub fn has_column(&self, name: &str) -> (r: bool)
        ensures
            r == find_name(self.schema_fields(), name@) is Some,
    {
        self.schema.field_exists(name)
    }

    /// Write a cell of this row, copying the row out of the frame on the first write.
    pub fn set(&mut self, index: usize, value: Value) -> (r: bool)
        ensures
            r == (index < old(self).values().len()),
            final(self).values().len() == old(self).values().len(),
            r ==> final(self).values()[index as int] == value,
            forall|i: int|
                0 <= i < old(self).values().len() && (!r || i != index) ==> (#[trigger] final(self).values()[i]).same(old(self).values()[i]),
            final(self).schema_fields() == old(self).schema_fields(),
    {
        if index >= self.cells().len() {
            proof {
                assert forall|i: int| 0 <= i < self.values().len() implies (#[trigger] self.values()[i]).same(
                    self.values()[i],
                ) by {
                    self.values()[i].lemma_same_refl();
                }
            }
            return false;
        }
        let mut owned = self.data();
        owned.set(index, value);
        self.data = RowData::Owned(owned);
        true
    }
}

impl<'a> Get<usize> for SubView<'a> {
    type Output = Value;

    fn get(&self, index: usize) -> Option<&Value> {
        let cells = self.cells();
        if index < cells.len() {
            Some(&cells[index])
        } else {
            None
        }
    }
}

} // verus!
