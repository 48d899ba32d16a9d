use vstd::prelude::*;
use vstd::pervasive::VecAdditionalExecFns;
use vstd::slice::slice_subrange;
use vstd::string::StringExecFns;

use crate::dim::Dim;
use crate::error::Error;
use crate::schema::{find_name as find_name_in, DataType, Field, Schema};
use crate::cast::{cast, cast_result, cast_succeeds};
use crate::convert::{convert, date_converts, Convert};
use crate::views::{RowView, SubView};
use crate::traits::TypeOf;
use crate::value::Value;

verus! {

/// The rows of a table laid end to end.
pub open spec fn flatten(rows: Seq<Vec<Value>>) -> Seq<Value>
    decreases rows.len(),
{
    if rows.len() == 0 {
        Seq::empty()
    } else {
        flatten(rows.drop_last()) + rows.last()@
    }
}

/// Every row has `width` cells.
pub open spec fn rows_of_width(rows: Seq<Vec<Value>>, width: int) -> bool {
    forall|i: int| 0 <= i < rows.len() ==> (#[trigger] rows[i])@.len() == width
}

/// Rows of one width flatten into `rows * width` cells, row `q` at `q * width`.
pub proof fn lemma_flatten(rows: Seq<Vec<Value>>, width: int)
    requires
        width >= 0,
        rows_of_width(rows, width),
    ensures
        flatten(rows).len() == rows.len() * width,
        forall|q: int, c: int|
            0 <= q < rows.len() && 0 <= c < width ==> #[trigger] flatten(rows)[q * width + c]
                == rows[q]@[c],
    decreases rows.len(),
{
    if rows.len() == 0 {
        assert(rows.len() * width == 0) by (nonlinear_arith)
            requires
                rows.len() == 0,
        ;
    } else {
        let init = rows.drop_last();
        assert(rows_of_width(init, width)) by {
            assert forall|i: int| 0 <= i < init.len() implies (#[trigger] init[i])@.len()
                == width by {
                assert(init[i] == rows[i]);
            }
        }
        lemma_flatten(init, width);
        let n = init.len();
        assert(flatten(rows).len() == flatten(init).len() + rows.last()@.len());
        assert(rows.last() == rows[rows.len() - 1]);
        assert(rows.len() * width == n * width + width) by (nonlinear_arith)
            requires
                rows.len() == n + 1,
        ;
        assert forall|q: int, c: int| 0 <= q < rows.len() && 0 <= c < width implies #[trigger] flatten(
            rows,
        )[q * width + c] == rows[q]@[c] by {
            if q < n {
                assert(q * width + c < n * width) by (nonlinear_arith)
                    requires
                        0 <= q < n,
                        0 <= c < width,
                ;
                assert(init[q] == rows[q]);
            } else {
                assert(q * width == n * width) by {
                    assert(q == n);
                }
            }
        }
    }
}

/// `after` is `before` with a weakly typed column named `name` appended, holding `Null` in
/// every row.
pub open spec fn column_pushed(before: FrameView, after: FrameView, name: Seq<char>) -> bool {
    &&& after.columns == before.columns + 1
    &&& after.rows == before.rows
    &&& after.fields.drop_last() == before.fields
    &&& after.fields.last().name@ == name
    &&& after.fields.last().dtype == DataType::Any
    &&& forall|q: int, c: int|
        0 <= q < before.rows && 0 <= c < before.columns ==> #[trigger] after.at(q, c) == before.at(
            q,
            c,
        )
    &&& forall|q: int|
        0 <= q < before.rows ==> #[trigger] after.at(q, before.columns as int) == Value::Null
}

/// `after` is `before` without the column at `column`.
pub open spec fn column_removed(before: FrameView, after: FrameView, column: int) -> bool {
    &&& after.columns == before.columns - 1
    &&& after.rows == before.rows
    &&& after.fields == before.fields.remove(column)
    &&& forall|q: int, c: int|
        0 <= q < before.rows && 0 <= c < before.columns - 1 ==> #[trigger] after.at(q, c)
            == before.at(
            q,
            if c < column {
                c
            } else {
                c + 1
            },
        )
}

/// Removing a column and then pushing one gives back the column count and keeps the row
/// count, but not the removed values: the pushed column holds only nulls, and the columns
/// after the removed one have moved one place to the left.
pub proof fn law_remove_then_push(
    before: FrameView,
    removed: FrameView,
    pushed: FrameView,
    column: int,
    name: Seq<char>,
)
    requires
        0 <= column < before.columns,
        column_removed(before, removed, column),
        column_pushed(removed, pushed, name),
    ensures
        pushed.columns == before.columns,
        pushed.rows == before.rows,
        pushed.fields.last().name@ == name,
        forall|q: int| 0 <= q < before.rows ==> #[trigger] pushed.at(q, before.columns - 1) == Value::Null,
        forall|q: int, c: int|
            0 <= q < before.rows && 0 <= c < column ==> #[trigger] pushed.at(q, c) == before.at(q, c),
{
    assert forall|q: int| 0 <= q < before.rows implies #[trigger] pushed.at(q, before.columns - 1)
        == Value::Null by {
        assert(pushed.at(q, removed.columns as int) == Value::Null);
    }
    assert forall|q: int, c: int| 0 <= q < before.rows && 0 <= c < column implies #[trigger] pushed.at(
        q,
        c,
    ) == before.at(q, c) by {
        assert(pushed.at(q, c) == removed.at(q, c));
        assert(removed.at(q, c) == before.at(q, c));
    }
}

/// What a frame holds: its cells in row-major order, its shape and its fields.
pub struct FrameView {
    pub cells: Seq<Value>,
    pub columns: nat,
    pub rows: nat,
    pub fields: Seq<Field>,
}

impl FrameView {
    /// The cell of row `row` and column `col`.
    pub open spec fn at(self, row: int, col: int) -> Value {
        self.cells[row * self.columns + col]
    }

    /// The cells of one row.
    pub open spec fn row(self, row: int) -> Seq<Value> {
        self.cells.subrange(row * self.columns, row * self.columns + self.columns)
    }

    /// The column of `col`, top to bottom.
    pub open spec fn column(self, col: int) -> Seq<Value> {
        Seq::new(self.rows, |q: int| self.at(q, col))
    }

    pub open spec fn names(self) -> Seq<Seq<char>> {
        self.fields.map_values(|f: Field| f.name@)
    }
}

/// A table: a schema, a shape, and the cells in one row-major buffer.
#[derive(Debug)]
pub struct DataFrame {
    data: Vec<Value>,
    dim: Dim,
    schema: Schema,
}

impl View for DataFrame {
    type V = FrameView;

    closed spec fn view(&self) -> FrameView {
        FrameView {
            cells: self.data@,
            columns: self.dim.0 as nat,
            rows: self.dim.1 as nat,
            fields: self.schema.spec_fields(),
        }
    }
}

/// Take the value out of `v[i]`, leaving `Null` in its place.
fn take(v: &mut Vec<Value>, i: usize) -> (r: Value)
    requires
        i < old(v)@.len(),
    ensures
        r == old(v)@[i as int],
        final(v)@ == old(v)@.update(i as int, Value::Null),
{
    let mut x = Value::Null;
    v.set_and_swap(i, &mut x);
    x
}

/// Append the rows to `data`, in order.
fn append_rows(data: &mut Vec<Value>, rows: Vec<Vec<Value>>)
    ensures
        final(data)@ == old(data)@ + flatten(rows@),
{
    let ghost orig = rows@;
    let mut rows = rows;
    let mut i: usize = 0;
    while i < rows.len()
        invariant
            rows@.len() == orig.len(),
            i <= orig.len(),
            forall|j: int| i <= j < orig.len() ==> rows@[j] == orig[j],
            data@ == old(data)@ + flatten(orig.subrange(0, i as int)),
        decreases orig.len() - i,
    {
        let mut row: Vec<Value> = Vec::new();
        rows.set_and_swap(i, &mut row);
        let ghost before = data@;
        data.append(&mut row);
        assert(orig.subrange(0, i + 1).drop_last() =~= orig.subrange(0, i as int));
        assert(data@ =~= old(data)@ + flatten(orig.subrange(0, i + 1)));
        i += 1;
    }
    assert(orig.subrange(0, i as int) =~= orig);
}

impl DataFrame {
    /// The buffer holds exactly the cells of the shape, and the schema one field per column.
    pub open spec fn wf(&self) -> bool {
        &&& self@.cells.len() == self@.columns * self@.rows
        &&& self@.fields.len() == self@.columns
    }

    proof fn lemma_view(&self)
        ensures
            self@.cells == self.data@,
            self@.columns == self.dim.0,
            self@.rows == self.dim.1,
            self@.fields == self.schema.spec_fields(),
    {
    }

    /// A frame with the named columns, weakly typed, holding the rows.
    pub fn new(columns: &[&str], data: Vec<Vec<Value>>) -> (r: DataFrame)
        requires
            rows_of_width(data@, columns@.len() as int),
            columns@.len() * data@.len() <= usize::MAX,
        ensures
            r.wf(),
            r@.columns == columns@.len(),
            r@.rows == data@.len(),
            r@.cells == flatten(data@),
            r@.names() == columns@.map_values(|s: &str| s@),
            forall|i: int| 0 <= i < r@.fields.len() ==> (#[trigger] r@.fields[i]).dtype
                == DataType::Any,
    {
        proof {
            lemma_flatten(data@, columns@.len() as int);
        }
        let dim = Dim::new(columns.len(), data.len());
        let ghost rows = data@;
        let mut cells: Vec<Value> = Vec::new();
        append_rows(&mut cells, data);
        let mut schema = Schema::default();
        let mut i: usize = 0;
        while i < columns.len()
            invariant
                i <= columns@.len(),
                schema.spec_fields().len() == i,
                forall|j: int| 0 <= j < i ==> (#[trigger] schema.spec_fields()[j]).name@
                    == columns@[j]@,
                forall|j: int| 0 <= j < i ==> (#[trigger] schema.spec_fields()[j]).dtype
                    == DataType::Any,
            decreases columns@.len() - i,
        {
            let ghost prev = schema.spec_fields();
            schema.add_field(columns[i]);
            assert forall|j: int| 0 <= j < i implies #[trigger] schema.spec_fields()[j] == prev[j] by {
                assert(schema.spec_fields().drop_last()[j] == schema.spec_fields()[j]);
            }
            i += 1;
        }
        proof {
            assert(columns@.len() * rows.len() == rows.len() * columns@.len()) by (nonlinear_arith);
        }
        let r = DataFrame { data: cells, dim, schema };
        assert(r@.names() =~= columns@.map_values(|s: &str| s@));
        assert(cells@ =~= flatten(rows));
        r
    }

    pub fn empty() -> (r: DataFrame)
        ensures
            r.wf(),
            r@.columns == 0,
            r@.rows == 0,
    {
        DataFrame { data: Vec::new(), dim: Dim::default(), schema: Schema::default() }
    }

    /// A frame with the columns of the first row view and the cells of all of them, in order;
    /// an empty frame when there are none. `InvalidDataLength` for the first row whose
    /// length is not that column count, with nothing built.
    pub fn from_views(views: Vec<SubView>) -> (r: Result<DataFrame, Error>)
        requires
            views@.len() > 0 ==> views@.len() * views@[0].schema_fields().len() <= usize::MAX,
        ensures
            views@.len() == 0 ==> (r matches Ok(df) && df@.columns == 0 && df@.rows == 0),
            views@.len() > 0 && (forall|k: int|
                0 <= k < views@.len() ==> (#[trigger] views@[k]).values().len()
                    == views@[0].schema_fields().len()) ==> (r matches Ok(df) && df.wf()
                && df@.rows == views@.len() && df@.columns == views@[0].schema_fields().len()
                && forall|q: int, c: int|
                0 <= q < views@.len() && 0 <= c < df@.columns ==> (#[trigger] df@.at(q, c)).same(
                    views@[q].values()[c],
                )),
            r matches Err(e) ==> e is InvalidDataLength,
    {
        if views.len() == 0 {
            return Ok(DataFrame::empty());
        }
        let names = views[0].columns();
        let width = names.len();
        proof {
            assert(names@.map_values(|s: String| s@).len() == names@.len());
            assert(width == views@[0].schema_fields().len());
        }
        let mut rows: Vec<Vec<Value>> = Vec::new();
        let mut i: usize = 0;
        while i < views.len()
            invariant
                i <= views@.len(),
                width == views@[0].schema_fields().len(),
                rows@.len() == i,
                forall|k: int| 0 <= k < i ==> (#[trigger] rows@[k])@.len() == views@[k].values().len(),
                forall|k: int, c: int|
                    0 <= k < i && 0 <= c < views@[k].values().len() ==> (#[trigger] rows@[k]@[c]).same(
                        views@[k].values()[c],
                    ),
            decreases views@.len() - i,
        {
            rows.push(views[i].data());
            i += 1;
        }
        let mut refs: Vec<&str> = Vec::new();
        let mut k: usize = 0;
        while k < names.len()
            invariant
                k <= names@.len(),
                refs@.len() == k,
                width == names@.len(),
                width == views@[0].schema_fields().len(),
            decreases names@.len() - k,
        {
            refs.push(names[k].as_str());
            k += 1;
        }
        let mut df = DataFrame::with_columns(refs.as_slice());
        let ghost rows_view = rows@;
        proof {
            assert(df@.columns == width);
            assert(df@.cells.len() == 0) by {
                assert(df@.columns * df@.rows == 0) by (nonlinear_arith)
                    requires
                        df@.rows == 0,
                ;
            }
            assert(df@.cells =~= Seq::<Value>::empty());
            assert(width * rows_view.len() <= usize::MAX) by (nonlinear_arith)
                requires
                    rows_view.len() * width <= usize::MAX,
            ;
        }
        match df.extend(rows) {
            Ok(_) => {
                proof {
                    if forall|k: int|
                        0 <= k < views@.len() ==> (#[trigger] views@[k]).values().len() == width {
                        assert(rows_of_width(rows_view, width as int));
                        lemma_flatten(rows_view, width as int);
                        assert(df@.cells =~= flatten(rows_view));
                        assert forall|q: int, c: int| 0 <= q < views@.len() && 0 <= c < width implies (
                        #[trigger] df@.at(q, c)).same(views@[q].values()[c]) by {
                            assert(df@.at(q, c) == flatten(rows_view)[q * width + c]);
                            assert(rows_view[q]@[c].same(views@[q].values()[c]));
                        }
                    }
                }
                Ok(df)
            },
            Err(e) => Err(e),
        }
    }

    /// A frame with the schema's fields and no rows.
    pub fn with_schema(s: Schema) -> (r: DataFrame)
        ensures
            r.wf(),
            r@.columns == s.spec_len(),
            r@.rows == 0,
            r@.fields == s.spec_fields(),
    {
        let n = s.len();
        DataFrame { data: Vec::new(), dim: Dim::new(n, 0), schema: s }
    }

    /// A frame with the named columns and no rows.
    pub fn with_columns(columns: &[&str]) -> (r: DataFrame)
        ensures
            r.wf(),
            r@.columns == columns@.len(),
            r@.rows == 0,
            r@.names() == columns@.map_values(|s: &str| s@),
    {
        let r = DataFrame::new(columns, Vec::new());
        assert(r@.cells =~= Seq::<Value>::empty());
        r
    }

    /// Number of rows.
    pub fn size(&self) -> (r: usize)
        ensures
            r == self@.rows,
    {
        self.dim.1
    }

    /// `(column_count, row_count)`.
    pub fn shape(&self) -> (r: (usize, usize))
        ensures
            r.0 == self@.columns,
            r.1 == self@.rows,
    {
        self.dim.shape()
    }

    pub fn schema(&self) -> (r: &Schema)
        ensures
            r.spec_fields() == self@.fields,
    {
        &self.schema
    }

    /// The column names, in order.
    pub fn columns(&self) -> (r: Vec<String>)
        ensures
            r@.map_values(|s: String| s@) == self@.names(),
    {
        let r = self.schema.field_names();
        assert(self.schema.names() =~= self@.names());
        r
    }

    /// Append a weakly typed column named `column`, holding `Null` in every row.
    pub fn push_column(&mut self, column: &str)
        requires
            old(self).wf(),
            old(self)@.columns < usize::MAX,
            (old(self)@.columns + 1) * old(self)@.rows <= usize::MAX,
        ensures
            final(self).wf(),
            column_pushed(old(self)@, final(self)@, column@),
    {
        proof {
            self.lemma_view();
        }
        let oc = self.dim.0;
        let rows = self.dim.1;
        let nc = oc + 1;
        let total = self.data.len();
        let ghost old_cells = self.data@;
        let mut out: Vec<Value> = Vec::new();
        let mut p: usize = 0;
        let mut row: usize = 0;
        proof {
            assert(oc * rows <= nc * rows) by (nonlinear_arith)
                requires
                    nc == oc + 1,
            ;
        }
        while row < rows
            invariant
                oc == old(self).dim.0,
                rows == old(self).dim.1,
                nc == oc + 1,
                nc * rows <= usize::MAX,
                old_cells == old(self).data@,
                self.dim == old(self).dim,
                self.schema == old(self).schema,
                old_cells.len() == oc * rows,
                total == oc * rows,
                row <= rows,
                p == row * oc,
                out@.len() == row * nc,
                self.data@.len() == old_cells.len(),
                forall|k: int| p <= k < old_cells.len() ==> self.data@[k] == old_cells[k],
                forall|q: int, c: int|
                    0 <= q < row && 0 <= c < oc ==> #[trigger] out@[q * nc + c] == old_cells[q
                        * oc + c],
                forall|q: int| 0 <= q < row ==> #[trigger] out@[q * nc + oc] == Value::Null,
            decreases rows - row,
        {
            proof {
                assert(row * oc + oc <= oc * rows) by (nonlinear_arith)
                    requires
                        row < rows,
                ;
                assert(row * nc + nc <= nc * rows) by (nonlinear_arith)
                    requires
                        row < rows,
                ;
            }
            let mut col: usize = 0;
            while col < oc
                invariant
                    oc == old(self).dim.0,
                    rows == old(self).dim.1,
                    nc == oc + 1,
                    nc * rows <= usize::MAX,
                    old_cells.len() == oc * rows,
                    self.dim == old(self).dim,
                    self.schema == old(self).schema,
                    total == oc * rows,
                    row < rows,
                    row * oc + oc <= oc * rows,
                    row * nc + nc <= nc * rows,
                    col <= oc,
                    p == row * oc + col,
                    out@.len() == row * nc + col,
                    self.data@.len() == old_cells.len(),
                    forall|k: int| p <= k < old_cells.len() ==> self.data@[k] == old_cells[k],
                    forall|q: int, c: int|
                        0 <= q < row && 0 <= c < oc ==> #[trigger] out@[q * nc + c] == old_cells[q
                            * oc + c],
                    forall|q: int| 0 <= q < row ==> #[trigger] out@[q * nc + oc] == Value::Null,
                    forall|c: int| 0 <= c < col ==> #[trigger] out@[row * nc + c] == old_cells[row
                        * oc + c],
                decreases oc - col,
            {
                let v = take(&mut self.data, p);
                out.push(v);
                proof {
                    assert forall|q: int, c: int| 0 <= q < row && 0 <= c < oc implies #[trigger] out@[q
                        * nc + c] == old_cells[q * oc + c] by {
                        assert(q * nc + c < row * nc) by (nonlinear_arith)
                            requires
                                q < row,
                                c < oc,
                                nc == oc + 1,
                        ;
                    }
                    assert forall|q: int| 0 <= q < row implies #[trigger] out@[q * nc + oc]
                        == Value::Null by {
                        assert(q * nc + oc < row * nc) by (nonlinear_arith)
                            requires
                                q < row,
                                nc == oc + 1,
                        ;
                    }
                }
                p += 1;
                col += 1;
            }
            out.push(Value::Null);
            proof {
                assert forall|q: int, c: int| 0 <= q < row + 1 && 0 <= c < oc implies #[trigger] out@[q
                    * nc + c] == old_cells[q * oc + c] by {
                    if q < row {
                        assert(q * nc + c < row * nc) by (nonlinear_arith)
                            requires
                                q < row,
                                c < oc,
                                nc == oc + 1,
                        ;
                    }
                }
                assert forall|q: int| 0 <= q < row + 1 implies #[trigger] out@[q * nc + oc]
                    == Value::Null by {
                    if q < row {
                        assert(q * nc + oc < row * nc) by (nonlinear_arith)
                            requires
                                q < row,
                                nc == oc + 1,
                        ;
                    }
                }
                assert((row + 1) * oc == row * oc + oc) by (nonlinear_arith);
                assert((row + 1) * nc == row * nc + nc) by (nonlinear_arith);
            }
            row += 1;
        }
        self.data = out;
        self.dim.0 = nc;
        self.schema.add_field(column);
        proof {
            assert(nc * rows == rows * nc) by (nonlinear_arith);
            self.lemma_view();
        }
    }

    /// Drop the column at `column`, with its values; `IndexOutOfBounds`, and nothing
    /// changed, when there is no such column.
    pub fn remove_column(&mut self, column: usize) -> (r: Result<(), Error>)
        requires
            old(self).wf(),
        ensures
            final(self).wf(),
            column >= old(self)@.columns ==> r == Err::<(), Error>(
                Error::IndexOutOfBounds { index: column, length: old(self)@.columns as usize },
            ) && final(self)@ == old(self)@,
            column < old(self)@.columns ==> r is Ok && column_removed(
                old(self)@,
                final(self)@,
                column as int,
            ),
    {
        let oc = self.schema.len();
        if column >= oc {
            return Err(Error::IndexOutOfBounds { index: column, length: oc });
        }
        proof {
            self.lemma_view();
        }
        let rows = self.dim.1;
        let nc = oc - 1;
        let total = self.data.len();
        let ghost old_cells = self.data@;
        let mut out: Vec<Value> = Vec::new();
        let mut p: usize = 0;
        let mut row: usize = 0;
        proof {
            assert(nc * rows <= oc * rows) by (nonlinear_arith)
                requires
                    nc + 1 == oc,
            ;
        }
        while row < rows
            invariant
                oc == old(self).dim.0,
                rows == old(self).dim.1,
                nc + 1 == oc,
                column < oc,
                old_cells == old(self).data@,
                self.dim == old(self).dim,
                self.schema == old(self).schema,
                old_cells.len() == oc * rows,
                total == oc * rows,
                nc * rows <= oc * rows,
                row <= rows,
                p == row * oc,
                out@.len() == row * nc,
                self.data@.len() == old_cells.len(),
                forall|k: int| p <= k < old_cells.len() ==> self.data@[k] == old_cells[k],
                forall|q: int, c: int|
                    0 <= q < row && 0 <= c < nc ==> #[trigger] out@[q * nc + c] == old_cells[q
                        * oc + if c < column {
                        c
                    } else {
                        c + 1
                    }],
            decreases rows - row,
        {
            proof {
                assert(row * oc + oc <= oc * rows) by (nonlinear_arith)
                    requires
                        row < rows,
                ;
            }
            let mut col: usize = 0;
            while col < oc
                invariant
                    oc == old(self).dim.0,
                    rows == old(self).dim.1,
                    nc + 1 == oc,
                    column < oc,
                    old_cells.len() == oc * rows,
                    self.dim == old(self).dim,
                    self.schema == old(self).schema,
                    total == oc * rows,
                    row < rows,
                    row * oc + oc <= oc * rows,
                    col <= oc,
                    p == row * oc + col,
                    out@.len() == row * nc + if col <= column {
                        col as int
                    } else {
                        col - 1
                    },
                    self.data@.len() == old_cells.len(),
                    forall|k: int| p <= k < old_cells.len() ==> self.data@[k] == old_cells[k],
                    forall|q: int, c: int|
                        0 <= q < row && 0 <= c < nc ==> #[trigger] out@[q * nc + c]
                            == old_cells[q * oc + if c < column {
                            c
                        } else {
                            c + 1
                        }],
                    forall|c: int|
                        0 <= c < nc && (c < column ==> c < col) && (c >= column ==> c + 1 < col)
                            ==> #[trigger] out@[row * nc + c] == old_cells[row * oc + if c
                            < column {
                            c
                        } else {
                            c + 1
                        }],
                decreases oc - col,
            {
                let v = take(&mut self.data, p);
                if col != column {
                    out.push(v);
                    proof {
                        assert forall|q: int, c: int| 0 <= q < row && 0 <= c < nc implies #[trigger] out@[q
                            * nc + c] == old_cells[q * oc + if c < column {
                            c
                        } else {
                            c + 1
                        }] by {
                            assert(q * nc + c < row * nc) by (nonlinear_arith)
                                requires
                                    q < row,
                                    c < nc,
                            ;
                        }
                    }
                }
                p += 1;
                col += 1;
            }
            proof {
                assert forall|q: int, c: int| 0 <= q < row + 1 && 0 <= c < nc implies #[trigger] out@[q
                    * nc + c] == old_cells[q * oc + if c < column {
                    c
                } else {
                    c + 1
                }] by {
                    if q < row {
                        assert(q * nc + c < row * nc) by (nonlinear_arith)
                            requires
                                q < row,
                                c < nc,
                        ;
                    }
                }
                assert((row + 1) * oc == row * oc + oc) by (nonlinear_arith);
                assert((row + 1) * nc == row * nc + nc) by (nonlinear_arith);
            }
            row += 1;
        }
        self.data = out;
        self.dim.0 = nc;
        let _ = self.schema.remove_at(column);
        proof {
            assert(nc * rows == rows * nc) by (nonlinear_arith);
            self.lemma_view();
        }
        Ok(())
    }
}

/// Distinct cells of a row-major layout lie at distinct positions.
pub proof fn lemma_cell_distinct(q1: int, c1: int, q2: int, c2: int, cols: int)
    requires
        0 <= c1 < cols,
        0 <= c2 < cols,
        q1 >= 0,
        q2 >= 0,
        q1 != q2 || c1 != c2,
    ensures
        q1 * cols + c1 != q2 * cols + c2,
{
    if q1 == q2 {
    } else if q1 < q2 {
        assert(q1 * cols + c1 < q2 * cols + c2) by (nonlinear_arith)
            requires
                q1 < q2,
                0 <= c1 < cols,
                0 <= c2,
        ;
    } else {
        assert(q2 * cols + c2 < q1 * cols + c1) by (nonlinear_arith)
            requires
                q2 < q1,
                0 <= c2 < cols,
                0 <= c1,
        ;
    }
}

/// One forward pass over a column: the type of the first non-null value (`Any` while
/// there is none), and whether every later non-null value has that type too.
pub open spec fn scan_types(col: Seq<Value>) -> (DataType, bool)
    decreases col.len(),
{
    if col.len() == 0 {
        (DataType::Any, true)
    } else {
        let (base, strict) = scan_types(col.drop_last());
        let v = col.last();
        if v is Null {
            (base, strict)
        } else if base == DataType::Any {
            (v.dtype(), strict)
        } else {
            (base, strict && v.dtype() == base)
        }
    }
}

/// The type a column is given when inferred from its values: the type of its first non-null
/// value when all its non-null values share it, `Any` when it has none or they differ.
pub open spec fn common_type(col: Seq<Value>) -> DataType {
    let (base, strict) = scan_types(col);
    if strict {
        base
    } else {
        DataType::Any
    }
}

/// The inferred type of a column (see `common_type`) and whether it holds a null.
fn infer_type(values: &Vec<&Value>, Ghost(col): Ghost<Seq<Value>>) -> (r: (DataType, bool))
    requires
        values@.len() == col.len(),
        forall|q: int| 0 <= q < col.len() ==> *(#[trigger] values@[q]) == col[q],
    ensures
        r.0 == common_type(col),
        r.1 == has_null(col),
{
    let mut dtype = DataType::Any;
    let mut strict = true;
    let mut nullable = false;
    let mut q: usize = 0;
    while q < values.len()
        invariant
            values@.len() == col.len(),
            forall|i: int| 0 <= i < col.len() ==> *(#[trigger] values@[i]) == col[i],
            q <= col.len(),
            (dtype, strict) == scan_types(col.take(q as int)),
            nullable == exists|j: int| 0 <= j < q && (#[trigger] col[j]) is Null,
        decreases col.len() - q,
    {
        let v = values[q];
        assert(*v == col[q as int]);
        assert(col.take(q + 1).drop_last() =~= col.take(q as int));
        if v.is_null() {
            nullable = true;
        } else {
            let vt = v.type_of();
            if dtype == DataType::Any {
                dtype = vt;
            } else if vt != dtype {
                strict = false;
            }
        }
        q += 1;
    }
    proof {
        assert(col.take(q as int) =~= col);
    }
    if strict {
        (dtype, nullable)
    } else {
        (DataType::Any, nullable)
    }
}

/// Whether a column holds a null.
pub open spec fn has_null(col: Seq<Value>) -> bool {
    exists|i: int| 0 <= i < col.len() && (#[trigger] col[i]) is Null
}

impl DataFrame {
    /// Rename the column `old_name`; `None`, and nothing changed, when there is none.
    pub fn rename_column(&mut self, old_name: &str, new_name: &str) -> (r: Option<String>)
        requires
            old(self).wf(),
        ensures
            final(self).wf(),
            final(self)@.cells == old(self)@.cells,
            final(self)@.columns == old(self)@.columns,
            final(self)@.rows == old(self)@.rows,
            match find_name_in(old(self)@.fields, old_name@) {
                Some(i) => r matches Some(n) && n@ == new_name@ && final(self)@.fields[i].name@
                    == new_name@ && final(self)@.fields[i].dtype == old(self)@.fields[i].dtype
                    && forall|j: int|
                    0 <= j < old(self)@.columns && j != i ==> final(self)@.fields[j]
                        == old(self)@.fields[j],
                None => r is None && final(self)@.fields == old(self)@.fields,
            },
    {
        proof {
            self.lemma_view();
        }
        let r = self.schema.rename_field(old_name, new_name);
        proof {
            self.lemma_view();
        }
        r
    }

    /// The cells of row `row`; `None` past the last row.
    pub fn row(&self, row: usize) -> (r: Option<&[Value]>)
        requires
            self.wf(),
        ensures
            row < self@.rows ==> (r matches Some(s) && s@ == self@.row(row as int)),
            row >= self@.rows ==> r is None,
    {
        proof {
            self.lemma_view();
        }
        if row >= self.dim.1 {
            return None;
        }
        let total = self.data.len();
        proof {
            assert(self.dim.0 * row + self.dim.0 <= self.dim.0 * self.dim.1) by (nonlinear_arith)
                requires
                    row < self.dim.1,
            ;
            assert(self.dim.0 * row == row * self.dim.0) by (nonlinear_arith);
        }
        let (start, end) = self.dim.get_row_range(row);
        Some(slice_subrange(self.data.as_slice(), start, end))
    }

    /// Append a row; `InvalidDataLength`, and nothing changed, when its length is not the
    /// column count. Returns the new row count.
    pub fn push_row(&mut self, data: Vec<Value>) -> (r: Result<usize, Error>)
        requires
            old(self).wf(),
            old(self)@.rows < usize::MAX,
            old(self)@.columns * (old(self)@.rows + 1) <= usize::MAX,
        ensures
            final(self).wf(),
            data@.len() != old(self)@.columns ==> r == Err::<usize, Error>(
                Error::InvalidDataLength {
                    expected: old(self)@.columns as usize,
                    actual: data@.len() as usize,
                },
            ) && final(self)@ == old(self)@,
            data@.len() == old(self)@.columns ==> r == Ok::<usize, Error>(
                (old(self)@.rows + 1) as usize,
            ) && final(self)@.cells == old(self)@.cells + data@ && final(self)@.rows
                == old(self)@.rows + 1 && final(self)@.columns == old(self)@.columns
                && final(self)@.fields == old(self)@.fields,
    {
        if data.len() != self.dim.0 {
            return Err(Error::InvalidDataLength { expected: self.dim.0, actual: data.len() });
        }
        self.push_row_unchecked(data);
        Ok(self.dim.1)
    }

    /// Append a row whose length is the column count, without checking it again.
    pub fn push_row_unchecked(&mut self, data: Vec<Value>)
        requires
            old(self).wf(),
            old(self)@.rows < usize::MAX,
            data@.len() == old(self)@.columns,
        ensures
            final(self).wf(),
            final(self)@.cells == old(self)@.cells + data@,
            final(self)@.rows == old(self)@.rows + 1,
            final(self)@.columns == old(self)@.columns,
            final(self)@.fields == old(self)@.fields,
    {
        proof {
            self.lemma_view();
        }
        let mut data = data;
        self.data.append(&mut data);
        self.dim.1 = self.dim.1 + 1;
        proof {
            self.lemma_view();
            let c = self.dim.0 as int;
            let r0 = old(self).dim.1 as int;
            assert(c * (r0 + 1) == c * r0 + c) by (nonlinear_arith);
        }
    }

    /// Append rows, all or none: `InvalidDataLength` for the first row whose length is not
    /// the column count, with nothing changed. Returns the new row count.
    pub fn extend(&mut self, data: Vec<Vec<Value>>) -> (r: Result<usize, Error>)
        requires
            old(self).wf(),
            old(self)@.rows + data@.len() <= usize::MAX,
            old(self)@.columns * (old(self)@.rows + data@.len()) <= usize::MAX,
        ensures
            final(self).wf(),
            rows_of_width(data@, old(self)@.columns as int) ==> r == Ok::<usize, Error>(
                (old(self)@.rows + data@.len()) as usize,
            ) && final(self)@.cells == old(self)@.cells + flatten(data@) && final(self)@.rows
                == old(self)@.rows + data@.len() && final(self)@.columns == old(self)@.columns
                && final(self)@.fields == old(self)@.fields,
            !rows_of_width(data@, old(self)@.columns as int) ==> final(self)@ == old(self)@ && exists|
                i: int,
            |
                0 <= i < data@.len() && data@[i]@.len() != old(self)@.columns
                    && rows_of_width(data@.take(i), old(self)@.columns as int) && r
                    == Err::<usize, Error>(
                    Error::InvalidDataLength {
                        expected: old(self)@.columns as usize,
                        actual: data@[i]@.len() as usize,
                    },
                ),
    {
        let cols = self.dim.0;
        let mut i: usize = 0;
        while i < data.len()
            invariant
                i <= data@.len(),
                *self == *old(self),
                self.wf(),
                cols == old(self)@.columns,
                rows_of_width(data@.take(i as int), cols as int),
            decreases data@.len() - i,
        {
            proof {
                self.lemma_view();
            }
            if data[i].len() != cols {
                return Err(Error::InvalidDataLength { expected: cols, actual: data[i].len() });
            }
            proof {
                assert forall|j: int| 0 <= j < i + 1 implies (#[trigger] data@.take(i + 1)[j])@.len()
                    == cols by {
                    if j < i {
                        assert(data@.take(i + 1)[j] == data@.take(i as int)[j]);
                    }
                }
            }
            i += 1;
        }
        proof {
            assert(data@.take(i as int) =~= data@);
            self.lemma_view();
        }
        self.extend_unchecked(data);
        Ok(self.dim.1)
    }

    /// Append rows whose lengths are the column count, without checking them again.
    pub fn extend_unchecked(&mut self, data: Vec<Vec<Value>>)
        requires
            old(self).wf(),
            old(self)@.rows + data@.len() <= usize::MAX,
            rows_of_width(data@, old(self)@.columns as int),
        ensures
            final(self).wf(),
            final(self)@.cells == old(self)@.cells + flatten(data@),
            final(self)@.rows == old(self)@.rows + data@.len(),
            final(self)@.columns == old(self)@.columns,
            final(self)@.fields == old(self)@.fields,
    {
        proof {
            self.lemma_view();
            lemma_flatten(data@, self.dim.0 as int);
        }
        let n = data.len();
        append_rows(&mut self.data, data);
        self.dim.1 = self.dim.1 + n;
        proof {
            self.lemma_view();
            let c = self.dim.0 as int;
            let r0 = old(self).dim.1 as int;
            assert(c * (r0 + n) == c * r0 + n * c) by (nonlinear_arith);
        }
    }

    /// Clear the schema, and data, and reset the dimensions
    pub fn clear(&mut self)
        ensures
            final(self).wf(),
            final(self)@.columns == 0,
            final(self)@.rows == 0,
    {
        self.schema.clear();
        self.data.clear();
        self.dim.0 = 0;
        self.dim.1 = 0;
        proof {
            self.lemma_view();
        }
    }

    /// Replace each value of the column `column`, top to bottom, by what `func` makes of
    /// it, stopping at the first failure: the rows above it keep their new values, the rest
    /// keep their old ones. `InvalidColumnName`, and nothing changed, when there is no such
    /// column.
    pub fn map_column<F>(&mut self, column: &str, func: F) -> (r: Result<(), Error>)
        where
            F: Fn(&Value) -> Result<Value, Error>,
        requires
            old(self).wf(),
            forall|v: &Value| func.requires((v,)),
        ensures
            final(self).wf(),
            final(self)@.columns == old(self)@.columns,
            final(self)@.rows == old(self)@.rows,
            final(self)@.fields == old(self)@.fields,
            match find_name_in(old(self)@.fields, column@) {
                None => (r matches Err(Error::InvalidColumnName { column: c }) && c@ == column@)
                    && final(self)@ == old(self)@,
                Some(i) => {
                    &&& forall|q: int, c: int|
                        0 <= q < old(self)@.rows && 0 <= c < old(self)@.columns && c != i
                            ==> #[trigger] final(self)@.at(q, c) == old(self)@.at(q, c)
                    &&& r is Ok ==> forall|q: int|
                        0 <= q < old(self)@.rows ==> func.ensures(
                            (&old(self)@.at(q, i),),
                            Ok::<Value, Error>(#[trigger] final(self)@.at(q, i)),
                        )
                    &&& r matches Err(e) ==> exists|q0: int|
                        0 <= q0 < old(self)@.rows && func.ensures(
                            (&old(self)@.at(q0, i),),
                            Err::<Value, Error>(e),
                        ) && (forall|q: int|
                            0 <= q < q0 ==> func.ensures(
                                (&old(self)@.at(q, i),),
                                Ok::<Value, Error>(#[trigger] final(self)@.at(q, i)),
                            )) && (forall|q: int|
                            q0 <= q < old(self)@.rows ==> #[trigger] final(self)@.at(q, i)
                                == old(self)@.at(q, i))
                },
            },
    {
        proof {
            self.lemma_view();
            crate::schema::lemma_find_name(self@.fields, column@);
        }
        let index = match self.schema.find_index(column) {
            Some(i) => i,
            None => return Err(Error::InvalidColumnName { column: String::from_str(column) }),
        };
        let cols = self.dim.0;
        let rows = self.dim.1;
        let total = self.data.len();
        let ghost old_view = self@;
        let mut p: usize = index;
        let mut q: usize = 0;
        while q < rows
            invariant
                self.wf(),
                self@.columns == old_view.columns,
                self@.rows == old_view.rows,
                self@.fields == old_view.fields,
                old_view == old(self)@,
                find_name_in(old(self)@.fields, column@) == Some(index as int),
                old_view.cells.len() == cols * rows,
                self.dim.0 == cols,
                self.dim.1 == rows,
                cols == old_view.columns,
                rows == old_view.rows,
                index < cols,
                q <= rows,
                total == cols * rows,
                forall|v: &Value| func.requires((v,)),
                q < rows ==> p == q * cols + index,
                forall|qq: int, c: int|
                    0 <= qq < rows && 0 <= c < cols && c != index ==> #[trigger] self@.at(qq, c)
                        == old_view.at(qq, c),
                forall|qq: int|
                    0 <= qq < q ==> func.ensures(
                        (&old_view.at(qq, index as int),),
                        Ok::<Value, Error>(#[trigger] self@.at(qq, index as int)),
                    ),
                forall|qq: int| q <= qq < rows ==> #[trigger] self@.at(qq, index as int) == old_view.at(
                    qq,
                    index as int,
                ),
            decreases rows - q,
        {
            proof {
                self.lemma_view();
                assert(q * cols + index < cols * rows) by (nonlinear_arith)
                    requires
                        q < rows,
                        index < cols,
                ;
            }
            let res = func(&self.data[p]);
            match res {
                Ok(nv) => {
                    let ghost before = self@;
                    self.data.set(p, nv);
                    proof {
                        self.lemma_view();
                        assert forall|qq: int, c: int|
                            0 <= qq < rows && 0 <= c < cols && (qq != q || c != index) implies #[trigger] self@.at(
                            qq,
                            c,
                        ) == before.at(qq, c) by {
                            lemma_cell_distinct(qq, c, q as int, index as int, cols as int);
                            assert(qq * cols + c < cols * rows) by (nonlinear_arith)
                                requires
                                    0 <= qq < rows,
                                    0 <= c < cols,
                            ;
                        }
                    }
                },
                Err(e) => {
                    proof {
                        self.lemma_view();
                        assert(self@.at(q as int, index as int) == old_view.at(q as int, index as int));
                        assert(self.data@[p as int] == self@.at(q as int, index as int));
                        assert(func.ensures(
                            (&old_view.at(q as int, index as int),),
                            Err::<Value, Error>(e),
                        ));
                        let q0 = q as int;
                        let i = index as int;
                        assert(0 <= q0 < old_view.rows && func.ensures(
                            (&old_view.at(q0, i),),
                            Err::<Value, Error>(e),
                        ) && (forall|qq: int|
                            0 <= qq < q0 ==> func.ensures(
                                (&old_view.at(qq, i),),
                                Ok::<Value, Error>(#[trigger] self@.at(qq, i)),
                            )) && (forall|qq: int|
                            q0 <= qq < old_view.rows ==> #[trigger] self@.at(qq, i) == old_view.at(
                                qq,
                                i,
                            )));
                    }
                    return Err(e);
                },
            }
            q += 1;
            if q < rows {
                proof {
                    assert(q * cols + index < cols * rows) by (nonlinear_arith)
                        requires
                            q < rows,
                            index < cols,
                    ;
                    assert(q * cols + index == (q - 1) * cols + index + cols) by (nonlinear_arith);
                }
                p = p + cols;
            }
        }
        Ok(())
    }

    /// Set the type of the column at `index`.
    pub(crate) fn set_column_type(&mut self, index: usize, dtype: DataType, nullable: bool)
        requires
            old(self).wf(),
            index < old(self)@.columns,
        ensures
            final(self).wf(),
            final(self)@.cells == old(self)@.cells,
            final(self)@.columns == old(self)@.columns,
            final(self)@.rows == old(self)@.rows,
            final(self)@.fields.len() == old(self)@.fields.len(),
            final(self)@.fields[index as int].dtype == dtype,
            final(self)@.fields[index as int].nullable == nullable,
            final(self)@.fields[index as int].name == old(self)@.fields[index as int].name,
            forall|j: int| 0 <= j < old(self)@.columns && j != index ==> final(self)@.fields[j]
                == old(self)@.fields[j],
    {
        proof {
            self.lemma_view();
        }
        self.schema.set_type(index, dtype, nullable);
        proof {
            self.lemma_view();
        }
    }

    /// Position of the column `name` refers to.
    pub(crate) fn column_index(&self, name: &str) -> (r: Option<usize>)
        requires
            self.wf(),
        ensures
            match find_name_in(self@.fields, name@) {
                Some(i) => r == Some(i as usize) && 0 <= i < self@.columns,
                None => r is None,
            },
    {
        proof {
            self.lemma_view();
            crate::schema::lemma_find_name(self@.fields, name@);
        }
        self.schema.find_index(name)
    }

    /// The cells of the column at `index`, top to bottom.
    fn column_at(&self, index: usize) -> (r: Vec<&Value>)
        requires
            self.wf(),
            index < self@.columns,
        ensures
            r@.len() == self@.rows,
            forall|q: int| 0 <= q < self@.rows ==> *(#[trigger] r@[q]) == self@.at(q, index as int),
    {
        proof {
            self.lemma_view();
        }
        let cols = self.dim.0;
        let rows = self.dim.1;
        let total = self.data.len();
        let mut out: Vec<&Value> = Vec::new();
        let mut p: usize = index;
        let mut q: usize = 0;
        while q < rows
            invariant
                self.wf(),
                cols == self@.columns,
                rows == self@.rows,
                index < cols,
                q <= rows,
                total == cols * rows,
                q < rows ==> p == q * cols + index,
                out@.len() == q,
                forall|k: int| 0 <= k < q ==> *(#[trigger] out@[k]) == self@.at(k, index as int),
            decreases rows - q,
        {
            proof {
                self.lemma_view();
                assert(q * cols + index < cols * rows) by (nonlinear_arith)
                    requires
                        q < rows,
                        index < cols,
                ;
            }
            out.push(&self.data[p]);
            q += 1;
            if q < rows {
                proof {
                    assert(q * cols + index < cols * rows) by (nonlinear_arith)
                        requires
                            q < rows,
                            index < cols,
                    ;
                    assert(q * cols + index == (q - 1) * cols + index + cols) by (nonlinear_arith);
                }
                p = p + cols;
            }
        }
        out
    }

    /// Derive each field's type from its column: the type all its non-null values share,
    /// `Any` when it has none or they differ; nullable when it holds a null.
    pub fn derive_schema(&mut self)
        requires
            old(self).wf(),
        ensures
            final(self).wf(),
            final(self)@.cells == old(self)@.cells,
            final(self)@.columns == old(self)@.columns,
            final(self)@.rows == old(self)@.rows,
            final(self)@.fields.len() == old(self)@.fields.len(),
            forall|k: int|
                0 <= k < old(self)@.columns ==> (#[trigger] final(self)@.fields[k]).dtype
                    == common_type(old(self)@.column(k)) && final(self)@.fields[k].nullable
                    == has_null(old(self)@.column(k)) && final(self)@.fields[k].name
                    == old(self)@.fields[k].name,
    {
        let cols = self.dim.0;
        proof {
            self.lemma_view();
        }
        let mut k: usize = 0;
        while k < cols
            invariant
                self.wf(),
                cols == self@.columns,
                self@.cells == old(self)@.cells,
                self@.columns == old(self)@.columns,
                self@.rows == old(self)@.rows,
                self@.fields.len() == old(self)@.fields.len(),
                k <= cols,
                forall|j: int|
                    0 <= j < k ==> (#[trigger] self@.fields[j]).dtype == common_type(
                        old(self)@.column(j),
                    ) && self@.fields[j].nullable == has_null(old(self)@.column(j))
                        && self@.fields[j].name == old(self)@.fields[j].name,
                forall|j: int|
                    k <= j < cols ==> #[trigger] self@.fields[j] == old(self)@.fields[j],
            decreases cols - k,
        {
            let ghost col = old(self)@.column(k as int);
            let values = self.column_at(k);
            proof {
                assert forall|q: int| 0 <= q < values@.len() implies *(#[trigger] values@[q])
                    == col[q] by {
                    assert(self@.at(q, k as int) == old(self)@.at(q, k as int));
                }
            }
            let (dtype, nullable) = infer_type(&values, Ghost(col));
            self.set_column_type(k, dtype, nullable);
            k += 1;
        }
    }

    /// Cast every value of the column `column` into `to_type` and give the field that type;
    /// on failure the field keeps its type.
    pub fn cast_column(&mut self, column: &str, to_type: DataType) -> (r: Result<(), Error>)
        requires
            old(self).wf(),
        ensures
            final(self).wf(),
            final(self)@.columns == old(self)@.columns,
            final(self)@.rows == old(self)@.rows,
            final(self)@.fields.len() == old(self)@.fields.len(),
            match find_name_in(old(self)@.fields, column@) {
                None => (r matches Err(Error::InvalidColumnName { column: c }) && c@ == column@)
                    && final(self)@ == old(self)@,
                Some(i) => {
                    &&& forall|q: int, c: int|
                        0 <= q < old(self)@.rows && 0 <= c < old(self)@.columns && c != i
                            ==> #[trigger] final(self)@.at(q, c) == old(self)@.at(q, c)
                    &&& r is Ok <==> forall|q: int|
                        0 <= q < old(self)@.rows ==> cast_succeeds(
                            #[trigger] old(self)@.at(q, i),
                            to_type,
                        )
                    &&& r is Ok ==> forall|q: int|
                        0 <= q < old(self)@.rows ==> cast_result(
                            old(self)@.at(q, i),
                            to_type,
                            #[trigger] final(self)@.at(q, i),
                        )
                    &&& r is Ok ==> final(self)@.fields[i].dtype == to_type
                    &&& r is Err ==> final(self)@.fields == old(self)@.fields
                },
            },
    {
        let position = self.column_index(column);
        let ghost mid = self@;
        let res = cast(self, column, &to_type);
        match res {
            Ok(()) => {
                let i = position.unwrap();
                let nullable = self.schema.spec_nullable_at(i);
                let ghost before = self@;
                self.set_column_type(i, to_type, nullable);
                proof {
                    assert forall|q: int, c: int|
                        0 <= q < before.rows && 0 <= c < before.columns implies #[trigger] self@.at(
                        q,
                        c,
                    ) == before.at(q, c) by {}
                }
                Ok(())
            },
            Err(e) => Err(e),
        }
    }

    /// A new frame with the given schema whose column `k` copies this frame's column
    /// `positions[k]`, row by row.
    pub(crate) fn gather(&self, positions: &Vec<usize>, schema: Schema) -> (r: DataFrame)
        requires
            self.wf(),
            forall|k: int| 0 <= k < positions@.len() ==> (#[trigger] positions@[k]) < self@.columns,
            schema.spec_len() == positions@.len(),
            positions@.len() * self@.rows <= usize::MAX,
        ensures
            r.wf(),
            r@.columns == positions@.len(),
            r@.rows == self@.rows,
            r@.fields == schema.spec_fields(),
            forall|q: int, k: int|
                0 <= q < self@.rows && 0 <= k < positions@.len() ==> (#[trigger] r@.at(q, k)).same(
                    self@.at(q, positions@[k] as int),
                ),
    {
        proof {
            self.lemma_view();
        }
        let cols = self.dim.0;
        let rows = self.dim.1;
        let m = positions.len();
        let total = self.data.len();
        let mut data: Vec<Value> = Vec::new();
        let mut offset: usize = 0;
        let mut q: usize = 0;
        while q < rows
            invariant
                self.wf(),
                cols == self@.columns,
                rows == self@.rows,
                m == positions@.len(),
                total == cols * rows,
                m * rows <= usize::MAX,
                forall|k: int| 0 <= k < m ==> (#[trigger] positions@[k]) < cols,
                q <= rows,
                q < rows ==> offset == q * cols,
                data@.len() == q * m,
                forall|qq: int, k: int|
                    0 <= qq < q && 0 <= k < m ==> (#[trigger] data@[qq * m + k]).same(
                        self@.at(qq, positions@[k] as int),
                    ),
            decreases rows - q,
        {
            proof {
                assert(q * m + m <= m * rows) by (nonlinear_arith)
                    requires
                        q < rows,
                ;
            }
            let mut k: usize = 0;
            while k < m
                invariant
                    self.wf(),
                    cols == self@.columns,
                    rows == self@.rows,
                    m == positions@.len(),
                    total == cols * rows,
                    m * rows <= usize::MAX,
                    q * m + m <= m * rows,
                    forall|kk: int| 0 <= kk < m ==> (#[trigger] positions@[kk]) < cols,
                    q < rows,
                    offset == q * cols,
                    k <= m,
                    data@.len() == q * m + k,
                    forall|qq: int, kk: int|
                        0 <= qq < q && 0 <= kk < m ==> (#[trigger] data@[qq * m + kk]).same(
                            self@.at(qq, positions@[kk] as int),
                        ),
                    forall|kk: int|
                        0 <= kk < k ==> (#[trigger] data@[q * m + kk]).same(
                            self@.at(q as int, positions@[kk] as int),
                        ),
                decreases m - k,
            {
                let pos = positions[k];
                proof {
                    self.lemma_view();
                    assert(q * cols + pos < cols * rows) by (nonlinear_arith)
                        requires
                            q < rows,
                            pos < cols,
                    ;
                }
                let v = self.data[offset + pos].clone();
                data.push(v);
                proof {
                    assert forall|qq: int, kk: int| 0 <= qq < q && 0 <= kk < m implies (#[trigger] data@[qq
                        * m + kk]).same(self@.at(qq, positions@[kk] as int)) by {
                        assert(qq * m + kk < q * m) by (nonlinear_arith)
                            requires
                                qq < q,
                                kk < m,
                        ;
                    }
                }
                k += 1;
            }
            proof {
                assert forall|qq: int, kk: int| 0 <= qq < q + 1 && 0 <= kk < m implies (#[trigger] data@[qq
                    * m + kk]).same(self@.at(qq, positions@[kk] as int)) by {
                    if qq < q {
                    } else {
                        assert(qq * m + kk == q * m + kk);
                    }
                }
                assert((q + 1) * m == q * m + m) by (nonlinear_arith);
            }
            q += 1;
            if q < rows {
                proof {
                    assert(q * cols <= cols * rows) by (nonlinear_arith)
                        requires
                            q < rows,
                    ;
                    assert(q * cols == (q - 1) * cols + cols) by (nonlinear_arith);
                }
                offset = offset + cols;
            }
        }
        let dim = Dim::new(m, rows);
        let r = DataFrame { data, dim, schema };
        proof {
            assert(m * rows == q * m) by (nonlinear_arith)
                requires
                    q == rows,
            ;
        }
        r
    }

    /// Apply a conversion to every value of the column `column` and give the field the type
    /// it produces; on failure the field keeps its type.
    pub fn convert_column(&mut self, column: &str, conversion: Convert) -> (r: Result<(), Error>)
        requires
            old(self).wf(),
        ensures
            final(self).wf(),
            final(self)@.columns == old(self)@.columns,
            final(self)@.rows == old(self)@.rows,
            final(self)@.fields.len() == old(self)@.fields.len(),
            match find_name_in(old(self)@.fields, column@) {
                None => (r matches Err(Error::InvalidColumnName { column: c }) && c@ == column@)
                    && final(self)@ == old(self)@,
                Some(i) => {
                    &&& forall|q: int, c: int|
                        0 <= q < old(self)@.rows && 0 <= c < old(self)@.columns && c != i
                            ==> #[trigger] final(self)@.at(q, c) == old(self)@.at(q, c)
                    &&& r is Ok ==> final(self)@.fields[i].dtype == DataType::Date && forall|q: int|
                        0 <= q < old(self)@.rows ==> (#[trigger] final(self)@.at(q, i)) is Date
                    &&& (forall|q: int|
                        0 <= q < old(self)@.rows ==> date_converts(
                            #[trigger] old(self)@.at(q, i),
                            match conversion {
                                Convert::ParseDateTime(f) => f@,
                            },
                        )) ==> r is Ok
                    &&& r is Err ==> final(self)@.fields == old(self)@.fields
                },
            },
    {
        let position = self.column_index(column);
        let res = convert(self, column, conversion);
        match res {
            Ok(dtype) => {
                let i = position.unwrap();
                let nullable = self.schema.spec_nullable_at(i);
                let ghost before = self@;
                self.set_column_type(i, dtype, nullable);
                proof {
                    assert forall|q: int, c: int|
                        0 <= q < before.rows && 0 <= c < before.columns implies #[trigger] self@.at(
                        q,
                        c,
                    ) == before.at(q, c) by {}
                }
                Ok(())
            },
            Err(e) => Err(e),
        }
    }

    /// A view over the rows, from the first.
    pub fn iter(&self) -> (r: RowView<'_>)
        requires
            self.wf(),
        ensures
            r.position() == 0,
            r.frame() == *self,
    {
        RowView::new(self)
    }

    /// The values of the column `column`, top to bottom.
    pub fn column_values(&self, column: &str) -> (r: Result<Vec<&Value>, Error>)
        requires
            self.wf(),
        ensures
            match find_name_in(self@.fields, column@) {
                Some(i) => r matches Ok(v) && v@.len() == self@.rows && forall|q: int|
                    0 <= q < self@.rows ==> *(#[trigger] v@[q]) == self@.at(q, i),
                None => r matches Err(Error::InvalidColumnName { column: c }) && c@ == column@,
            },
    {
        proof {
            self.lemma_view();
            crate::schema::lemma_find_name(self@.fields, column@);
        }
        let index = match self.schema.find_index(column) {
            Some(i) => i,
            None => return Err(Error::InvalidColumnName { column: String::from_str(column) }),
        };
        Ok(self.column_at(index))
    }
}

impl Default for DataFrame {
    fn default() -> (r: DataFrame)
        ensures
            r.wf(),
            r@.columns == 0,
            r@.rows == 0,
    {
        DataFrame::empty()
    }
}

} // verus!
