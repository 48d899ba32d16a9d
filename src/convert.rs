use vstd::prelude::*;
use vstd::string::StringExecFns;

use crate::dataframe::DataFrame;
use crate::error::Error as FrameError;
use crate::schema::{find_name, DataType};
use crate::traits::TypeOf;
use crate::value::Value;

verus! {

/// Failures of conversions.
#[derive(Debug, Clone, PartialEq)]
pub enum Error {
    /// The value's text does not denote a date in the format.
    ParseDateError { value: String, format: String, message: String },
    /// Values of this type cannot be converted into the destination type.
    IllegalConversion { value_type: DataType, dest_type: DataType },
}

/// A conversion that needs more than a destination type.
#[derive(Debug, Clone, Copy)]
pub enum Convert<'a> {
    /// Read a date and time from a value's text, in a chrono format.
    ParseDateTime(&'a str),
}

/// Whether chrono reads a date and time from the text in the format.
pub uninterp spec fn datetime_parses(text: Seq<char>, format: Seq<char>) -> bool;

/// Relies on chrono's `NaiveDateTime::parse_from_str`: whether it reads a date and time
/// depends on the text and the format alone; its error is handed on as chrono writes it.
#[verifier::external_body]
fn parse_datetime(text: &str, format: &str) -> (r: Result<chrono::NaiveDateTime, String>)
    ensures
        r is Ok <==> datetime_parses(text@, format@),
{
    match chrono::NaiveDateTime::parse_from_str(text, format) {
        Ok(d) => Ok(d),
        Err(e) => Err(e.to_string()),
    }
}

/// Whether a value converts into a date in the format: its text must read as one.
pub open spec fn date_converts(v: Value, format: Seq<char>) -> bool {
    !v.is_float_number() && (v.known_text() matches Some(t) && datetime_parses(t, format))
}

/// Read a date from the value's text in the format.
pub fn parse_date_value(value: &Value, format: &str) -> (r: Result<Value, Error>)
    ensures
        r matches Ok(x) ==> x is Date,
        value.is_float_number() ==> r == Err::<Value, Error>(
            Error::IllegalConversion { value_type: value.dtype(), dest_type: DataType::Date },
        ),
        !value.is_float_number() ==> (value.known_text() matches Some(t) ==> (r is Ok
            <==> datetime_parses(t, format@))),
        !value.is_float_number() ==> (r matches Err(e) ==> e is ParseDateError),
{
    if let Value::Number(n) = value {
        if n.is_f32() || n.is_f64() {
            return Err(Error::IllegalConversion { value_type: value.type_of(), dest_type: DataType::Date });
        }
    }
    let text = value.to_string();
    match parse_datetime(text.as_str(), format) {
        Ok(d) => Ok(Value::Date(d)),
        Err(message) => Err(
            Error::ParseDateError { value: text, format: String::from_str(format), message },
        ),
    }
}

/// Apply a conversion to every value of the column `column`, top to bottom, stopping at the
/// first value that does not convert; gives the type the column then has.
pub fn convert(df: &mut DataFrame, column: &str, conversion: Convert) -> (r: Result<
    DataType,
    FrameError,
>)
    requires
        old(df).wf(),
    ensures
        final(df).wf(),
        final(df)@.columns == old(df)@.columns,
        final(df)@.rows == old(df)@.rows,
        final(df)@.fields == old(df)@.fields,
        match find_name(old(df)@.fields, column@) {
            None => (r matches Err(FrameError::InvalidColumnName { column: c }) && c@ == column@)
                && final(df)@ == old(df)@,
            Some(i) => {
                &&& forall|q: int, c: int|
                    0 <= q < old(df)@.rows && 0 <= c < old(df)@.columns && c != i
                        ==> #[trigger] final(df)@.at(q, c) == old(df)@.at(q, c)
                &&& r is Ok ==> r == Ok::<DataType, FrameError>(DataType::Date) && forall|q: int|
                    0 <= q < old(df)@.rows ==> (#[trigger] final(df)@.at(q, i)) is Date
                &&& (forall|q: int|
                    0 <= q < old(df)@.rows ==> date_converts(#[trigger] old(df)@.at(q, i), match conversion {
                        Convert::ParseDateTime(f) => f@,
                    })) ==> r is Ok
                &&& r matches Err(e) ==> e is ConvertError
            },
        },
{
    match conversion {
        Convert::ParseDateTime(fmt) => try_parse_datetime(df, column, fmt),
    }
}

fn try_parse_datetime(df: &mut DataFrame, column: &str, fmt: &str) -> (r: Result<
    DataType,
    FrameError,
>)
    requires
        old(df).wf(),
    ensures
        final(df).wf(),
        final(df)@.columns == old(df)@.columns,
        final(df)@.rows == old(df)@.rows,
        final(df)@.fields == old(df)@.fields,
        match find_name(old(df)@.fields, column@) {
            None => (r matches Err(FrameError::InvalidColumnName { column: c }) && c@ == column@)
                && final(df)@ == old(df)@,
            Some(i) => {
                &&& forall|q: int, c: int|
                    0 <= q < old(df)@.rows && 0 <= c < old(df)@.columns && c != i
                        ==> #[trigger] final(df)@.at(q, c) == old(df)@.at(q, c)
                &&& r is Ok ==> r == Ok::<DataType, FrameError>(DataType::Date) && forall|q: int|
                    0 <= q < old(df)@.rows ==> (#[trigger] final(df)@.at(q, i)) is Date
                &&& (forall|q: int|
                    0 <= q < old(df)@.rows ==> date_converts(#[trigger] old(df)@.at(q, i), fmt@))
                    ==> r is Ok
                &&& r matches Err(e) ==> e is ConvertError
            },
        },
{
    let f = |value: &Value| -> (res: Result<Value, FrameError>)
        ensures
            res matches Ok(x) ==> x is Date,
            date_converts(*value, fmt@) ==> res is Ok,
            res matches Err(e) ==> e is ConvertError,
        {
            match parse_date_value(value, fmt) {
                Ok(v) => Ok(v),
                Err(e) => Err(FrameError::ConvertError { source: e }),
            }
        };
    let ghost old_view = df@;
    let r = df.map_column(column, f);
    proof {
        if let Some(i) = find_name(old_view.fields, column@) {
            if r is Ok {
                assert forall|q: int| 0 <= q < old_view.rows implies (#[trigger] df@.at(q, i)) is Date by {
                    assert(f.ensures((&old_view.at(q, i),), Ok::<Value, FrameError>(df@.at(q, i))));
                }
            } else {
                let e = r->Err_0;
                let q0 = choose|q0: int|
                    0 <= q0 < old_view.rows && f.ensures(
                        (&old_view.at(q0, i),),
                        Err::<Value, FrameError>(e),
                    );
                assert(!date_converts(old_view.at(q0, i), fmt@));
            }
        }
    }
    match r {
        Ok(()) => Ok(DataType::Date),
        Err(e) => Err(e),
    }
}

} // verus!
