use retl::cast::{cast_or_default, into_number, safe_cast, try_cast, Error as CastError};
use retl::error::Error;
use retl::number::Num;
use retl::{DataFrame, DataType, Number, Value};

fn ints(values: &[i32]) -> Vec<Value> {
    values.iter().map(|v| Value::from(*v)).collect()
}

#[test]
fn new_frame_has_shape_of_inputs() {
    let df = DataFrame::new(&["a", "b", "c"], vec![ints(&[1, 2, 3]), ints(&[4, 5, 6])]);
    assert_eq!(df.shape(), (3, 2));
    let empty = DataFrame::new(&["a"], vec![]);
    assert_eq!(empty.shape(), (1, 0));
    assert_eq!(empty.row(0), None);
}

#[test]
fn push_column_adds_null_column() {
    let mut df = DataFrame::new(&["a", "b"], vec![ints(&[1, 2]), ints(&[3, 4]), ints(&[5, 6])]);
    df.push_column("c");
    assert_eq!(df.shape(), (3, 3));
    assert_eq!(df.row(1).unwrap(), [3.into(), 4.into(), Value::Null]);
    assert_eq!(df.columns(), ["a", "b", "c"]);
    assert_eq!(df.schema().get_field("c").unwrap().dtype, DataType::Any);
}

#[test]
fn remove_then_push_loses_values() {
    let mut df = DataFrame::new(&["a", "b"], vec![ints(&[1, 2]), ints(&[3, 4])]);
    assert!(df.remove_column(0).is_ok());
    df.push_column("a");
    assert_eq!(df.shape(), (2, 2));
    assert_eq!(df.row(0).unwrap(), [2.into(), Value::Null]);
    assert_eq!(df.row(1).unwrap(), [4.into(), Value::Null]);
    assert_eq!(df.columns(), ["b", "a"]);
}

#[test]
fn push_row_of_wrong_length_fails_and_changes_nothing() {
    let mut df = DataFrame::new(&["a", "b"], vec![ints(&[1, 2])]);
    assert_eq!(
        df.push_row(ints(&[1, 2, 3])),
        Err(Error::InvalidDataLength { expected: 2, actual: 3 })
    );
    assert_eq!(df.shape(), (2, 1));
    assert_eq!(df.push_row(ints(&[7, 8])), Ok(2));
}

#[test]
fn extend_is_all_or_nothing() {
    let mut df = DataFrame::with_columns(&["a", "b"]);
    assert_eq!(
        df.extend(vec![ints(&[1, 2]), ints(&[3]), ints(&[4, 5, 6])]),
        Err(Error::InvalidDataLength { expected: 2, actual: 1 })
    );
    assert_eq!(df.shape(), (2, 0));
    assert_eq!(df.extend(vec![ints(&[1, 2]), ints(&[3, 4])]), Ok(2));
    assert_eq!(df.row(1).unwrap(), [3.into(), 4.into()]);
}

#[test]
fn remove_column_out_of_bounds_fails() {
    let mut df = DataFrame::new(&["a", "b"], vec![ints(&[1, 2])]);
    assert_eq!(df.remove_column(2), Err(Error::IndexOutOfBounds { index: 2, length: 2 }));
    assert_eq!(df.shape(), (2, 1));
    assert_eq!(df.row(0).unwrap(), [1.into(), 2.into()]);
}

#[test]
fn cast_to_own_type_is_identity() {
    let v = Value::from(-5i64);
    assert_eq!(try_cast(v.clone(), &DataType::Int64), Ok(v));
    let s = Value::from("text");
    assert_eq!(try_cast(s.clone(), &DataType::String), Ok(s));
    let f = Value::Number(Number(Num::Float(0x3fc0_0000)));
    assert_eq!(try_cast(f.clone(), &DataType::Float), Ok(f));
}

#[test]
fn narrowing_cast_rejects_overflow() {
    let r = try_cast(Value::from(300i32), &DataType::Uint8);
    assert!(matches!(r, Err(CastError::FailedNumericCast { .. })));
    assert_eq!(try_cast(Value::from(200i32), &DataType::Uint8), Ok(Value::from(200u8)));
}

#[test]
fn cast_rules() {
    assert_eq!(
        try_cast(Value::from(true), &DataType::Date),
        Err(CastError::IllegalCast { source_type: DataType::Bool, dest_type: DataType::Date })
    );
    assert_eq!(try_cast(Value::from(true), &DataType::Int32), Ok(Value::from(1i32)));
    assert_eq!(try_cast(Value::from("42"), &DataType::Uint16), Ok(Value::from(42u16)));
    assert_eq!(try_cast(Value::from(42u16), &DataType::String), Ok(Value::from("42")));
    assert_eq!(try_cast(Value::from(false), &DataType::String), Ok(Value::from("false")));
    assert_eq!(safe_cast(Value::from("x"), &DataType::Uint8), Value::Null);
    assert_eq!(cast_or_default(Value::from(-1i8), &DataType::Uint8, Value::from(0u8)), Value::from(0u8));
    assert_eq!(into_number(Value::from(1u8), &DataType::String), Err(CastError::InvalidNumericCast));
    assert_eq!(
        into_number(Value::Null, &DataType::Int8),
        Err(CastError::IllegalCast { source_type: DataType::Any, dest_type: DataType::Int8 })
    );
}

#[test]
fn derive_schema_infers_types() {
    let mut df = DataFrame::new(
        &["a", "b", "c", "d"],
        vec![
            vec![1u32.into(), 1u32.into(), 1u32.into(), Value::Null],
            vec![2u32.into(), Value::Null, "x".into(), Value::Null],
            vec![3u32.into(), 3u32.into(), 3u32.into(), Value::Null],
        ],
    );
    df.derive_schema();
    let s = df.schema();
    assert_eq!(s.get_field("a").unwrap().dtype, DataType::Uint32);
    assert!(!s.get_field("a").unwrap().nullable);
    assert_eq!(s.get_field("b").unwrap().dtype, DataType::Uint32);
    assert!(s.get_field("b").unwrap().nullable);
    assert_eq!(s.get_field("c").unwrap().dtype, DataType::Any);
    assert!(s.is_weak());
    assert_eq!(s.get_field("d").unwrap().dtype, DataType::Any);
    assert!(s.get_field("d").unwrap().nullable);
}

#[test]
fn derive_schema_on_two_values() {
    let mut df = DataFrame::new(&["a"], vec![vec![1u32.into()], vec!["x".into()]]);
    df.derive_schema();
    assert_eq!(df.schema().get_field("a").unwrap().dtype, DataType::Any);
}

#[test]
fn column_lookups_fail_on_unknown_names() {
    let mut df = DataFrame::new(&["a"], vec![ints(&[1])]);
    assert_eq!(
        df.column_values("zz").err(),
        Some(Error::InvalidColumnName { column: "zz".to_string() })
    );
    assert_eq!(
        df.cast_column("zz", DataType::Int64),
        Err(Error::InvalidColumnName { column: "zz".to_string() })
    );
    let values = df.column_values("a").unwrap();
    assert_eq!(values, vec![&Value::from(1i32)]);
}

#[test]
fn failing_cast_column_keeps_field_type() {
    let mut df = DataFrame::new(&["a"], vec![vec!["1".into()], vec!["x".into()]]);
    let r = df.cast_column("a", DataType::Uint8);
    assert!(matches!(r, Err(Error::CastError { .. })));
    assert_eq!(df.schema().get_field("a").unwrap().dtype, DataType::Any);
    assert_eq!(df.row(0).unwrap(), [Value::from(1u8)]);
    assert_eq!(df.row(1).unwrap(), [Value::from("x")]);
}

#[test]
fn convert_reports_unparsable_dates() {
    let mut df = DataFrame::new(&["a"], vec![vec!["not a date".into()]]);
    let r = df.convert_column("a", retl::convert::Convert::ParseDateTime("%Y-%m-%d"));
    match r {
        Err(Error::ConvertError { source: retl::convert::Error::ParseDateError { value, format, .. } }) => {
            assert_eq!(value, "not a date");
            assert_eq!(format, "%Y-%m-%d");
        }
        other => panic!("unexpected {:?}", other),
    }
}

#[test]
fn date_values_write_their_text() {
    let mut df = DataFrame::new(&["a"], vec![vec!["2020-01-02 03:04:05".into()]]);
    assert!(df.convert_column("a", retl::convert::Convert::ParseDateTime("%Y-%m-%d %H:%M:%S")).is_ok());
    assert_eq!(df.row(0).unwrap()[0].to_string(), "2020-01-02 03:04:05");
}

#[test]
fn value_texts() {
    assert_eq!(Value::Null.to_string(), "null");
    assert_eq!(Value::from(true).to_string(), "true");
    assert_eq!(Value::from(-12i32).to_string(), "-12");
    assert_eq!(Value::Binary(vec![1, 2]).to_string(), "[bin data]");
}

#[test]
fn rename_and_clear() {
    let mut df = DataFrame::new(&["a", "b"], vec![ints(&[1, 2])]);
    assert_eq!(df.rename_column("a", "x"), Some("x".to_string()));
    assert_eq!(df.rename_column("nope", "y"), None);
    assert_eq!(df.columns(), ["x", "b"]);
    df.clear();
    assert_eq!(df.shape(), (0, 0));
    assert!(df.columns().is_empty());
}

#[test]
fn subview_copies_on_write() {
    let df = DataFrame::new(&["a", "b"], vec![ints(&[1, 2])]);
    let mut rows = df.iter();
    let mut row = rows.next().unwrap();
    assert!(row.set(1, Value::from(9i32)));
    assert!(!row.set(5, Value::Null));
    assert_eq!(row.cells(), [1.into(), 9.into()]);
    assert_eq!(df.row(0).unwrap(), [1.into(), 2.into()]);
    assert_eq!(row.column_index("b"), Some(1));
    assert!(rows.next().is_none());
    let mut again = df.iter();
    assert!(again.next().is_some());
}

#[test]
fn casts_into_floats() {
    assert_eq!(
        try_cast(Value::from(3u8), &DataType::Float),
        Ok(Value::Number(Number(Num::Float(3.0f32.to_bits()))))
    );
    assert_eq!(
        try_cast(Value::from(-7i32), &DataType::Double),
        Ok(Value::Number(Number(Num::Double((-7.0f64).to_bits()))))
    );
    assert!(matches!(
        try_cast(Value::from(-7i16), &DataType::Float),
        Err(CastError::IllegalCast { .. })
    ));
}
