use vstd::prelude::*;
use vstd::pervasive::VecAdditionalExecFns;
use vstd::string::StrSliceExecFns;

use crate::dataframe::{flatten, rows_of_width, DataFrame};
use crate::error::Error;
use crate::text::{nat_text, nat_to_string};
use crate::value::Value;

verus! {

/// The cell a text field becomes: `Null` when it is empty, the text otherwise.
pub open spec fn field_value(field: String) -> Value {
    if field@.len() == 0 {
        Value::Null
    } else {
        Value::String(field)
    }
}

/// The length of the longest record, 0 when there is none.
pub open spec fn max_width(records: Seq<Vec<String>>) -> nat
    decreases records.len(),
{
    if records.len() == 0 {
        0
    } else {
        let w = max_width(records.drop_last());
        if records.last()@.len() > w {
            records.last()@.len()
        } else {
            w
        }
    }
}

/// A record as a row of `width` cells, padded with `Null`.
pub open spec fn record_row(record: Seq<String>, width: nat) -> Seq<Value> {
    Seq::new(width, |j: int| if j < record.len() { field_value(record[j]) } else { Value::Null })
}

/// Names for columns that have none: each column's zero-based position, in decimal.
pub fn index_names(n: usize) -> (r: Vec<String>)
    ensures
        r@.len() == n,
        forall|i: int| 0 <= i < n ==> (#[trigger] r@[i])@ == nat_text(i as nat),
{
    let mut out: Vec<String> = Vec::new();
    let mut i: usize = 0;
    while i < n
        invariant
            i <= n,
            out@.len() == i,
            forall|j: int| 0 <= j < i ==> (#[trigger] out@[j])@ == nat_text(j as nat),
        decreases n - i,
    {
        out.push(nat_to_string(i as u64));
        i += 1;
    }
    out
}

fn widest(records: &Vec<Vec<String>>) -> (r: usize)
    ensures
        r == max_width(records@),
{
    let mut w: usize = 0;
    let mut i: usize = 0;
    while i < records.len()
        invariant
            i <= records@.len(),
            w == max_width(records@.take(i as int)),
        decreases records@.len() - i,
    {
        assert(records@.take(i + 1).drop_last() =~= records@.take(i as int));
        if records[i].len() > w {
            w = records[i].len();
        }
        i += 1;
    }
    assert(records@.take(i as int) =~= records@);
    w
}

proof fn lemma_max_width(records: Seq<Vec<String>>)
    ensures
        forall|i: int| 0 <= i < records.len() ==> (#[trigger] records[i])@.len() <= max_width(records),
    decreases records.len(),
{
    if records.len() > 0 {
        lemma_max_width(records.drop_last());
        assert forall|i: int| 0 <= i < records.len() implies (#[trigger] records[i])@.len()
            <= max_width(records) by {
            if i < records.len() - 1 {
                assert(records[i] == records.drop_last()[i]);
            }
        }
    }
}

/// A frame from text records: empty fields become `Null`, shorter records are padded with
/// `Null` to the longest one, and the columns are named by `headers`, or by their positions
/// when there are none. `InvalidDataLength` when the headers do not match that width.
pub fn frame_from_records(headers: Option<Vec<String>>, records: Vec<Vec<String>>) -> (r: Result<
    DataFrame,
    Error,
>)
    requires
        records@.len() * (max_width(records@) + 1) <= usize::MAX,
    ensures
        ({
            let width = max_width(records@);
            let names_len = match headers {
                Some(h) => h@.len(),
                None => width,
            };
            &&& (records@.len() == 0 || names_len == width) ==> (r matches Ok(df) && df.wf()
                && df@.rows == records@.len() && df@.columns == names_len && (forall|q: int, c: int|
                0 <= q < records@.len() && 0 <= c < width ==> #[trigger] df@.at(q, c) == record_row(
                    records@[q]@,
                    width,
                )[c]) && (headers matches Some(h) ==> df@.names() == h@.map_values(
                |s: String| s@,
            )) && (headers is None ==> forall|c: int|
                0 <= c < width ==> #[trigger] df@.names()[c] == nat_text(c as nat)))
            &&& (records@.len() > 0 && names_len != width) ==> r == Err::<DataFrame, Error>(
                Error::InvalidDataLength { expected: names_len as usize, actual: width as usize },
            )
        }),
{
    let width = widest(&records);
    proof {
        lemma_max_width(records@);
    }
    let ghost orig = records@;
    let mut records = records;
    let mut rows: Vec<Vec<Value>> = Vec::new();
    let mut i: usize = 0;
    while i < records.len()
        invariant
            records@.len() == orig.len(),
            width == max_width(orig),
            forall|k: int| 0 <= k < orig.len() ==> (#[trigger] orig[k])@.len() <= width,
            i <= orig.len(),
            forall|k: int| i <= k < orig.len() ==> records@[k] == orig[k],
            rows@.len() == i,
            forall|k: int| 0 <= k < i ==> (#[trigger] rows@[k])@ == record_row(orig[k]@, width as nat),
        decreases orig.len() - i,
    {
        let mut record: Vec<String> = Vec::new();
        records.set_and_swap(i, &mut record);
        let ghost rec = record@;
        assert(orig[i as int]@.len() <= width);
        let mut row: Vec<Value> = Vec::new();
        let mut j: usize = 0;
        let mut fields = record;
        while j < width
            invariant
                rec == orig[i as int]@,
                rec.len() <= width,
                fields@.len() == rec.len(),
                forall|k: int| j <= k < rec.len() ==> fields@[k] == rec[k],
                j <= width,
                row@.len() == j,
                forall|k: int| 0 <= k < j ==> (#[trigger] row@[k]) == record_row(rec, width as nat)[k],
            decreases width - j,
        {
            if j < fields.len() {
                let mut field = String::new();
                fields.set_and_swap(j, &mut field);
                if field.as_str().unicode_len() == 0 {
                    row.push(Value::Null);
                } else {
                    row.push(Value::String(field));
                }
            } else {
                row.push(Value::Null);
            }
            j += 1;
        }
        assert(row@ =~= record_row(rec, width as nat));
        rows.push(row);
        i += 1;
    }
    let names = match headers {
        Some(h) => h,
        None => index_names(width),
    };
    let mut refs: Vec<&str> = Vec::new();
    let mut k: usize = 0;
    while k < names.len()
        invariant
            k <= names@.len(),
            refs@.len() == k,
            forall|j: int| 0 <= j < k ==> (#[trigger] refs@[j])@ == names@[j]@,
        decreases names@.len() - k,
    {
        refs.push(names[k].as_str());
        k += 1;
    }
    let mut df = DataFrame::with_columns(refs.as_slice());
    proof {
        assert(refs@.map_values(|s: &str| s@) =~= names@.map_values(|s: String| s@));
    }
    let n = rows.len();
    if n > 0 && names.len() != width {
        return Err(Error::InvalidDataLength { expected: names.len(), actual: width });
    }
    proof {
        assert(rows_of_width(rows@, names@.len() as int)) by {
            assert forall|q: int| 0 <= q < rows@.len() implies (#[trigger] rows@[q])@.len()
                == names@.len() by {}
        }
        assert(names@.len() * n <= usize::MAX) by (nonlinear_arith)
            requires
                n * (width + 1) <= usize::MAX,
                n == 0 || names@.len() == width,
        ;
        crate::dataframe::lemma_flatten(rows@, names@.len() as int);
    }
    let ghost rows_view = rows@;
    match df.extend(rows) {
        Ok(_) => {
            proof {
                assert forall|q: int, c: int| 0 <= q < n && 0 <= c < width implies #[trigger] df@.at(q, c)
                    == record_row(orig[q]@, width as nat)[c] by {
                    assert(df@.cells == flatten(rows_view));
                    assert(df@.at(q, c) == df@.cells[q * width + c]);
                }
            }
            Ok(df)
        },
        Err(e) => Err(e),
    }
}

} // verus!
