use retl::number::Num;
use retl::value::Object;
use retl::{DataType, Number, Value};
use std::cmp::Ordering;

#[test]
fn values_of_one_variant_compare_by_contents() {
    assert_eq!(Value::from(1i32).partial_cmp(&Value::from(2i32)), Some(Ordering::Less));
    assert_eq!(Value::from("b").partial_cmp(&Value::from("a")), Some(Ordering::Greater));
    assert_eq!(Value::from("ab").partial_cmp(&Value::from("ab")), Some(Ordering::Equal));
    assert_eq!(Value::from(false).partial_cmp(&Value::from(true)), Some(Ordering::Less));
    assert_eq!(
        Value::Binary(vec![1, 2]).partial_cmp(&Value::Binary(vec![1, 2, 0])),
        Some(Ordering::Less)
    );
    assert_eq!(Value::Null.partial_cmp(&Value::Null), Some(Ordering::Equal));
}

#[test]
fn values_of_different_variants_do_not_compare() {
    assert_eq!(Value::from(1i32).partial_cmp(&Value::from("1")), None);
    assert_eq!(Value::from(1i32).partial_cmp(&Value::from(1i64)), None);
    assert_eq!(
        Value::Object(Object::new()).partial_cmp(&Value::Object(Object::new())),
        None
    );
    assert_eq!(Value::Array(vec![]).partial_cmp(&Value::Array(vec![])), None);
}

#[test]
fn floats_compare_by_value() {
    let f = |x: f32| Number(Num::Float(x.to_bits()));
    let d = |x: f64| Number(Num::Double(x.to_bits()));
    assert_eq!(f(-1.5).partial_cmp(&f(0.25)), Some(Ordering::Less));
    assert_eq!(f(-2.0).partial_cmp(&f(-1.0)), Some(Ordering::Less));
    assert_eq!(f(0.0).partial_cmp(&f(-0.0)), Some(Ordering::Equal));
    assert_eq!(f(f32::NAN).partial_cmp(&f(1.0)), None);
    assert_eq!(d(f64::INFINITY).partial_cmp(&d(1e300)), Some(Ordering::Greater));
}

#[test]
fn decimals_compare_by_value() {
    let a = Number::from_str("1.50", &DataType::Decimal).unwrap();
    let b = Number::from_str("1.5", &DataType::Decimal).unwrap();
    let c = Number::from_str("-2", &DataType::Decimal).unwrap();
    assert_eq!(a.partial_cmp(&b), Some(Ordering::Equal));
    assert_eq!(c.partial_cmp(&a), Some(Ordering::Less));
}

#[test]
fn dates_compare_in_time() {
    let mut df = retl::DataFrame::new(
        &["a"],
        vec![vec!["2019-01-01 00:00:00".into()], vec!["2020-01-01 00:00:00".into()]],
    );
    assert!(df
        .convert_column("a", retl::convert::Convert::ParseDateTime("%Y-%m-%d %H:%M:%S"))
        .is_ok());
    let first = df.row(0).unwrap()[0].clone();
    let second = df.row(1).unwrap()[0].clone();
    assert_eq!(first.partial_cmp(&second), Some(Ordering::Less));
}
