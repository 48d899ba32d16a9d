use vstd::prelude::*;

use crate::dataframe::DataFrame;
use crate::error::Error as FrameError;
use crate::number::{decimal_parse, in_range, is_f32_of, is_f64_of, is_signed, Num, Number};
use crate::schema::{find_name, DataType};
use crate::text::parse_int_text;
use crate::traits::TypeOf;
use crate::value::Value;

verus! {

/// Failures of casts.
#[derive(Debug, Clone, PartialEq)]
pub enum Error {
    /// The value's type cannot be cast into the desired type.
    IllegalCast { source_type: DataType, dest_type: DataType },
    /// The numeric conversion failed.
    FailedNumericCast { source: crate::number::Error },
    /// A numeric conversion was asked for a non numeric destination type.
    InvalidNumericCast,
}


/// Widening casts, which never lose information.
pub open spec fn spec_can_cast(from: DataType, to: DataType) -> bool {
    match to {
        DataType::Int64 => match from {
            DataType::Bool | DataType::Uint8 | DataType::Uint16 | DataType::Uint32 | DataType::Int8 | DataType::Int16 | DataType::Int32 | DataType::Float | DataType::Decimal => true,
            _ => false,
        },
        DataType::Int32 => match from {
            DataType::Bool | DataType::Uint8 | DataType::Uint16 | DataType::Int8 | DataType::Int16 => true,
            _ => false,
        },
        DataType::Int16 => match from {
            DataType::Bool | DataType::Uint8 | DataType::Int8 => true,
            _ => false,
        },
        DataType::Int8 => match from {
            DataType::Bool => true,
            _ => false,
        },
        DataType::Uint64 => match from {
            DataType::Bool | DataType::Uint8 | DataType::Uint16 | DataType::Uint32 => true,
            _ => false,
        },
        DataType::Uint32 => match from {
            DataType::Bool | DataType::Uint8 | DataType::Uint16 => true,
            _ => false,
        },
        DataType::Uint16 => match from {
            DataType::Bool | DataType::Uint8 => true,
            _ => false,
        },
        DataType::Uint8 => match from {
            DataType::Bool => true,
            _ => false,
        },
        DataType::Float => match from {
            DataType::Uint8 | DataType::Uint16 | DataType::Int8 => true,
            _ => false,
        },
        DataType::Double => match from {
            DataType::Uint8 | DataType::Uint16 | DataType::Uint32 | DataType::Int8 | DataType::Int16 | DataType::Int32 | DataType::Float => true,
            _ => false,
        },
        DataType::String => match from {
            DataType::Bool | DataType::Uint8 | DataType::Uint16 | DataType::Uint32 | DataType::Uint64 | DataType::Int8 | DataType::Int16 | DataType::Int32 | DataType::Int64 => true,
            _ => false,
        },
        _ => false,
    }
}

/// Narrowing casts, which fail at run time on a value the destination cannot hold.
pub open spec fn spec_can_try_cast(from: DataType, to: DataType) -> bool {
    match to {
        DataType::Uint64 => match from {
            DataType::String | DataType::Int8 | DataType::Int16 | DataType::Int32 | DataType::Int64 => true,
            _ => false,
        },
        DataType::Uint32 => match from {
            DataType::String | DataType::Int8 | DataType::Int16 | DataType::Int32 | DataType::Int64 | DataType::Uint64 => true,
            _ => false,
        },
        DataType::Uint16 => match from {
            DataType::String | DataType::Int8 | DataType::Int16 | DataType::Int32 | DataType::Int64 | DataType::Uint32 | DataType::Uint64 => true,
            _ => false,
        },
        DataType::Uint8 => match from {
            DataType::String | DataType::Int8 | DataType::Int16 | DataType::Int32 | DataType::Int64 | DataType::Uint16 | DataType::Uint32 | DataType::Uint64 => true,
            _ => false,
        },
        DataType::Int64 => match from {
            DataType::String | DataType::Uint64 => true,
            _ => false,
        },
        DataType::Int32 => match from {
            DataType::String | DataType::Uint64 | DataType::Uint32 | DataType::Int64 => true,
            _ => false,
        },
        DataType::Int16 => match from {
            DataType::String | DataType::Uint64 | DataType::Uint32 | DataType::Uint16 | DataType::Int64 | DataType::Int32 => true,
            _ => false,
        },
        DataType::Int8 => match from {
            DataType::String | DataType::Uint64 | DataType::Uint32 | DataType::Uint16 | DataType::Uint8 | DataType::Int64 | DataType::Int32 | DataType::Int16 => true,
            _ => false,
        },
        _ => false,
    }
}

/// Whether a value of type `from` can always be cast into `to`.
pub fn can_cast(from: &DataType, to: &DataType) -> (r: bool)
    ensures
        r == spec_can_cast(*from, *to),
{
    match *to {
        DataType::Int64 => match *from {
            DataType::Bool | DataType::Uint8 | DataType::Uint16 | DataType::Uint32 | DataType::Int8 | DataType::Int16 | DataType::Int32 | DataType::Float | DataType::Decimal => true,
            _ => false,
        },
        DataType::Int32 => match *from {
            DataType::Bool | DataType::Uint8 | DataType::Uint16 | DataType::Int8 | DataType::Int16 => true,
            _ => false,
        },
        DataType::Int16 => match *from {
            DataType::Bool | DataType::Uint8 | DataType::Int8 => true,
            _ => false,
        },
        DataType::Int8 => match *from {
            DataType::Bool => true,
            _ => false,
        },
        DataType::Uint64 => match *from {
            DataType::Bool | DataType::Uint8 | DataType::Uint16 | DataType::Uint32 => true,
            _ => false,
        },
        DataType::Uint32 => match *from {
            DataType::Bool | DataType::Uint8 | DataType::Uint16 => true,
            _ => false,
        },
        DataType::Uint16 => match *from {
            DataType::Bool | DataType::Uint8 => true,
            _ => false,
        },
        DataType::Uint8 => match *from {
            DataType::Bool => true,
            _ => false,
        },
        DataType::Float => match *from {
            DataType::Uint8 | DataType::Uint16 | DataType::Int8 => true,
            _ => false,
        },
        DataType::Double => match *from {
            DataType::Uint8 | DataType::Uint16 | DataType::Uint32 | DataType::Int8 | DataType::Int16 | DataType::Int32 | DataType::Float => true,
            _ => false,
        },
        DataType::String => match *from {
            DataType::Bool | DataType::Uint8 | DataType::Uint16 | DataType::Uint32 | DataType::Uint64 | DataType::Int8 | DataType::Int16 | DataType::Int32 | DataType::Int64 => true,
            _ => false,
        },
        _ => false,
    }
}

/// Whether a value of type `from` may be cast into `to`, failing where it does not fit.
pub fn can_try_cast(from: &DataType, to: &DataType) -> (r: bool)
    ensures
        r == spec_can_try_cast(*from, *to),
{
    match *to {
        DataType::Uint64 => match *from {
            DataType::String | DataType::Int8 | DataType::Int16 | DataType::Int32 | DataType::Int64 => true,
            _ => false,
        },
        DataType::Uint32 => match *from {
            DataType::String | DataType::Int8 | DataType::Int16 | DataType::Int32 | DataType::Int64 | DataType::Uint64 => true,
            _ => false,
        },
        DataType::Uint16 => match *from {
            DataType::String | DataType::Int8 | DataType::Int16 | DataType::Int32 | DataType::Int64 | DataType::Uint32 | DataType::Uint64 => true,
            _ => false,
        },
        DataType::Uint8 => match *from {
            DataType::String | DataType::Int8 | DataType::Int16 | DataType::Int32 | DataType::Int64 | DataType::Uint16 | DataType::Uint32 | DataType::Uint64 => true,
            _ => false,
        },
        DataType::Int64 => match *from {
            DataType::String | DataType::Uint64 => true,
            _ => false,
        },
        DataType::Int32 => match *from {
            DataType::String | DataType::Uint64 | DataType::Uint32 | DataType::Int64 => true,
            _ => false,
        },
        DataType::Int16 => match *from {
            DataType::String | DataType::Uint64 | DataType::Uint32 | DataType::Uint16 | DataType::Int64 | DataType::Int32 => true,
            _ => false,
        },
        DataType::Int8 => match *from {
            DataType::String | DataType::Uint64 | DataType::Uint32 | DataType::Uint16 | DataType::Uint8 | DataType::Int64 | DataType::Int32 | DataType::Int16 => true,
            _ => false,
        },
        _ => false,
    }
}


/// Whether a cast from `from` into `to` is permitted at all.
pub open spec fn permitted(from: DataType, to: DataType) -> bool {
    spec_can_cast(from, to) || spec_can_try_cast(from, to)
}

/// The number a boolean stands for in numeric casts.
pub open spec fn bool_number(b: bool) -> Number {
    Number(Num::Uint8(if b {
        1u8
    } else {
        0u8
    }))
}

/// Whether the number `n` converts into the numeric type `t`.
pub open spec fn number_converts(n: Number, t: DataType) -> bool {
    if t.is_integer() {
        n.0.int_value() matches Some(v) && in_range(v, t)
    } else if t == DataType::Float {
        n.0 is Float || n.0 is Uint8 || n.0 is Uint16 || n.0 is Int8 || n.0 is Int16
    } else if t == DataType::Double {
        n.0 is Double || n.0 is Uint8 || n.0 is Uint16 || n.0 is Uint32 || n.0 is Int8 || n.0 is Int16
            || n.0 is Int32
    } else {
        n.0.int_value() is Some || n.0 is Decimal
    }
}

/// `m` is what the number `n` converts into in the numeric type `t`.
pub open spec fn number_result(n: Number, t: DataType, m: Number) -> bool {
    if t.is_integer() {
        m == Number(Num::from_int(n.0.int_value().unwrap(), t))
    } else if t == DataType::Float {
        &&& n.0 is Float ==> m == n
        &&& n.0.int_value() matches Some(v) ==> (m.0 matches Num::Float(b) && is_f32_of(b, v))
    } else if t == DataType::Double {
        &&& n.0 is Double ==> m == n
        &&& n.0.int_value() matches Some(v) ==> (m.0 matches Num::Double(b) && is_f64_of(b, v))
    } else {
        &&& n.0 is Decimal ==> m == n
        &&& n.0.int_value() matches Some(v) ==> (m.0 matches Num::Decimal(d) && d.spec_mantissa()
            == v && d.spec_scale() == 0)
    }
}

/// Whether the text `s` reads as a number of the numeric type `t`.
pub open spec fn text_converts(s: Seq<char>, t: DataType) -> bool {
    if t.is_integer() {
        parse_int_text(s, is_signed(t)) matches Some(v) && in_range(v, t)
    } else if t == DataType::Decimal {
        decimal_parse(s) is Some
    } else {
        false
    }
}

/// `m` is the number of type `t` that the text `s` reads as.
pub open spec fn text_result(s: Seq<char>, t: DataType, m: Number) -> bool {
    if t.is_integer() {
        m == Number(Num::from_int(parse_int_text(s, is_signed(t)).unwrap(), t))
    } else {
        m.0 matches Num::Decimal(d) && decimal_parse(s) == Some((d.spec_mantissa(), d.spec_scale()))
    }
}

/// Whether a numeric conversion of `v` into the numeric type `t` succeeds.
pub open spec fn value_converts(v: Value, t: DataType) -> bool {
    match v {
        Value::Number(n) => number_converts(n, t),
        Value::String(s) => text_converts(s@, t),
        Value::Bool(b) => number_converts(bool_number(b), t),
        _ => false,
    }
}

/// `r` is what a numeric conversion of `v` into the numeric type `t` gives.
pub open spec fn value_result(v: Value, t: DataType, r: Value) -> bool {
    r matches Value::Number(m) && match v {
        Value::Number(n) => number_result(n, t, m),
        Value::String(s) => text_result(s@, t, m),
        Value::Bool(b) => number_result(bool_number(b), t, m),
        _ => false,
    }
}

/// Whether `try_cast(v, t)` succeeds.
pub open spec fn cast_succeeds(v: Value, t: DataType) -> bool {
    v.dtype() == t || (permitted(v.dtype(), t) && if t.spec_is_numeric() {
        value_converts(v, t)
    } else {
        t == DataType::String
    })
}

/// `r` is what a successful `try_cast(v, t)` gives: `v` itself when it already has type `t`,
/// the converted number, or the value's text.
pub open spec fn cast_result(v: Value, t: DataType, r: Value) -> bool {
    if v.dtype() == t {
        r.same(v)
    } else if t.spec_is_numeric() {
        value_result(v, t, r)
    } else {
        r matches Value::String(s) && (v.known_text() matches Some(x) ==> s@ == x)
    }
}

fn convert_number(num: Number, into_type: DataType) -> (r: Result<Value, Error>)
    requires
        into_type.spec_is_numeric(),
    ensures
        r is Ok <==> number_converts(num, into_type),
        r matches Ok(x) ==> x matches Value::Number(m) && number_result(num, into_type, m),
        r matches Err(e) ==> e is FailedNumericCast,
{
    let res = match into_type {
        DataType::Uint8 => num.into_uint8(),
        DataType::Uint16 => num.into_uint16(),
        DataType::Uint32 => num.into_uint32(),
        DataType::Uint64 => num.into_uint64(),
        DataType::Int8 => num.into_int8(),
        DataType::Int16 => num.into_int16(),
        DataType::Int32 => num.into_int32(),
        DataType::Int64 => num.into_int64(),
        DataType::Float => num.into_float(),
        DataType::Double => num.into_double(),
        _ => num.into_decimal(),
    };
    match res {
        Ok(n) => Ok(Value::Number(n)),
        Err(e) => Err(Error::FailedNumericCast { source: e }),
    }
}

/// Convert a value into the numeric type `into_type`: numbers by checked conversion,
/// texts by reading them as that type, booleans as 1 and 0.
pub fn into_number(value: Value, into_type: &DataType) -> (r: Result<Value, Error>)
    ensures
        !into_type.spec_is_numeric() ==> r == Err::<Value, Error>(Error::InvalidNumericCast),
        into_type.spec_is_numeric() ==> (r is Ok <==> value_converts(value, *into_type)),
        r matches Ok(x) ==> value_result(value, *into_type, x),
        into_type.spec_is_numeric() && !(value is Number || value is String || value is Bool)
            ==> r == Err::<Value, Error>(
            Error::IllegalCast { source_type: value.dtype(), dest_type: *into_type },
        ),
        into_type.spec_is_numeric() && (value is Number || value is Bool || value is String) ==> (
        r matches Err(e) ==> e is FailedNumericCast),
{
    let t = *into_type;
    if !t.is_numeric() {
        return Err(Error::InvalidNumericCast);
    }
    match value {
        Value::Number(num) => convert_number(num, t),
        Value::String(s) => match Number::from_str(s.as_str(), into_type) {
            Ok(n) => Ok(Value::Number(n)),
            Err(e) => Err(Error::FailedNumericCast { source: e }),
        },
        Value::Bool(b) => convert_number(Number(Num::Uint8(if b { 1u8 } else { 0u8 })), t),
        _ => Err(Error::IllegalCast { source_type: value.type_of(), dest_type: t }),
    }
}

/// The value's text, as a string value.
pub fn into_string(value: Value) -> (r: Result<Value, Error>)
    requires
        !value.is_float_number(),
    ensures
        r matches Ok(Value::String(s)) && (value.known_text() matches Some(x) ==> s@ == x),
{
    Ok(Value::String(value.to_string()))
}

/// Try to cast the value into `dtype`: a value of that type is returned as it is; a cast
/// that neither table permits fails with `IllegalCast`; numeric destinations go through
/// `into_number`, text through `into_string`.
pub fn try_cast(value: Value, dtype: &DataType) -> (r: Result<Value, Error>)
    ensures
        value.dtype() == *dtype ==> r == Ok::<Value, Error>(value),
        r is Ok <==> cast_succeeds(value, *dtype),
        r matches Ok(x) ==> cast_result(value, *dtype, x),
        value.dtype() != *dtype && !permitted(value.dtype(), *dtype) ==> r == Err::<Value, Error>(
            Error::IllegalCast { source_type: value.dtype(), dest_type: *dtype },
        ),
        value.dtype() != *dtype && permitted(value.dtype(), *dtype) ==> (r matches Err(e)
            ==> e is FailedNumericCast),
{
    let source_type = value.type_of();
    if source_type == *dtype {
        proof {
            value.lemma_same_refl();
        }
        return Ok(value);
    }
    let cast_allowed = can_cast(&source_type, dtype);
    let try_cast_allowed = can_try_cast(&source_type, dtype);
    if !cast_allowed && !try_cast_allowed {
        return Err(Error::IllegalCast { source_type, dest_type: *dtype });
    }
    if dtype.is_numeric() {
        return into_number(value, dtype);
    }
    into_string(value)
}

/// Cast the value into `dtype`, or give `Null` where the cast fails.
pub fn safe_cast(value: Value, dtype: &DataType) -> (r: Value)
    ensures
        cast_succeeds(value, *dtype) ==> cast_result(value, *dtype, r),
        !cast_succeeds(value, *dtype) ==> r == Value::Null,
{
    cast_or_default(value, dtype, Value::Null)
}

/// Cast the value into `dtype`, or give `default` where the cast fails.
pub fn cast_or_default(value: Value, dtype: &DataType, default: Value) -> (r: Value)
    ensures
        cast_succeeds(value, *dtype) ==> cast_result(value, *dtype, r),
        !cast_succeeds(value, *dtype) ==> r == default,
{
    match try_cast(value, dtype) {
        Ok(v) => v,
        Err(_) => default,
    }
}

/// Cast every value of the column `column` into `to_type`, top to bottom, stopping at the
/// first value that does not cast.
pub fn cast(df: &mut DataFrame, column: &str, to_type: &DataType) -> (r: Result<(), FrameError>)
    requires
        old(df).wf(),
    ensures
        final(df).wf(),
        final(df)@.columns == old(df)@.columns,
        final(df)@.rows == old(df)@.rows,
        final(df)@.fields == old(df)@.fields,
        match find_name(old(df)@.fields, column@) {
            None => (r matches Err(FrameError::InvalidColumnName { column: c }) && c@ == column@)
                && final(df)@ == old(df)@,
            Some(i) => {
                &&& forall|q: int, c: int|
                    0 <= q < old(df)@.rows && 0 <= c < old(df)@.columns && c != i
                        ==> #[trigger] final(df)@.at(q, c) == old(df)@.at(q, c)
                &&& r is Ok <==> forall|q: int|
                    0 <= q < old(df)@.rows ==> cast_succeeds(#[trigger] old(df)@.at(q, i), *to_type)
                &&& r is Ok ==> forall|q: int|
                    0 <= q < old(df)@.rows ==> cast_result(
                        old(df)@.at(q, i),
                        *to_type,
                        #[trigger] final(df)@.at(q, i),
                    )
                &&& r matches Err(e) ==> e is CastError
            },
        },
{
    let t = *to_type;
    let f = |value: &Value| -> (res: Result<Value, FrameError>)
        ensures
            res is Ok <==> cast_succeeds(*value, t),
            res matches Ok(x) ==> cast_result(*value, t, x),
            res matches Err(e) ==> e is CastError,
        {
            let c = value.clone();
            proof {
                value.lemma_same_type(c);
            }
            match try_cast(c, &t) {
                Ok(v) => Ok(v),
                Err(e) => Err(FrameError::CastError { source: e }),
            }
        };
    let ghost old_view = df@;
    let r = df.map_column(column, f);
    proof {
        if let Some(i) = find_name(old_view.fields, column@) {
            if r is Ok {
                assert forall|q: int| 0 <= q < old_view.rows implies cast_succeeds(
                    #[trigger] old_view.at(q, i),
                    t,
                ) by {
                    assert(f.ensures((&old_view.at(q, i),), Ok::<Value, FrameError>(df@.at(q, i))));
                }
            } else {
                let e = r->Err_0;
                let q0 = choose|q0: int|
                    0 <= q0 < old_view.rows && f.ensures(
                        (&old_view.at(q0, i),),
                        Err::<Value, FrameError>(e),
                    );
                assert(!cast_succeeds(old_view.at(q0, i), t));
            }
        }
    }
    r
}

} // verus!
