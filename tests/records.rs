use retl::source::{frame_from_records, index_names};
use retl::value::{text_less, Object};
use retl::Value;

fn record(fields: &[&str]) -> Vec<String> {
    fields.iter().map(|f| f.to_string()).collect()
}

#[test]
fn records_become_a_padded_frame() {
    let df = frame_from_records(
        Some(record(&["a", "b", "c"])),
        vec![record(&["1", "", "3"]), record(&["4", "5"])],
    )
    .unwrap();
    assert_eq!(df.columns(), ["a", "b", "c"]);
    assert_eq!(df.size(), 2);
    assert_eq!(df.row(0).unwrap(), ["1".into(), Value::Null, "3".into()]);
    assert_eq!(df.row(1).unwrap(), ["4".into(), "5".into(), Value::Null]);
}

#[test]
fn records_without_headers_get_index_names() {
    let df = frame_from_records(None, vec![record(&["x", "y"])]).unwrap();
    assert_eq!(df.columns(), ["0", "1"]);
    assert_eq!(index_names(12)[11], "11");
}

#[test]
fn records_wider_than_headers_fail() {
    let r = frame_from_records(Some(record(&["a"])), vec![record(&["1", "2"])]);
    assert!(matches!(
        r,
        Err(retl::error::Error::InvalidDataLength { expected: 1, actual: 2 })
    ));
    let empty = frame_from_records(Some(record(&["a", "b"])), vec![]).unwrap();
    assert_eq!(empty.shape(), (2, 0));
}

#[test]
fn object_keeps_keys_sorted_and_unique() {
    let mut m = Object::new();
    assert_eq!(m.insert("b".to_string(), Value::from(2i32)), None);
    assert_eq!(m.insert("a".to_string(), Value::from(1i32)), None);
    assert_eq!(m.insert("c".to_string(), Value::from(3i32)), None);
    assert_eq!(m.insert("b".to_string(), Value::from(20i32)), Some(Value::from(2i32)));
    assert_eq!(m.keys(), vec!["a".to_string(), "b".to_string(), "c".to_string()]);
    assert_eq!(m.get("b"), Some(&Value::from(20i32)));
    assert!(m.contains_key("c"));
    assert_eq!(m.remove("a"), Some(Value::from(1i32)));
    assert_eq!(m.remove("a"), None);
    assert_eq!(m.len(), 2);
    assert_eq!(m.values(), vec![&Value::from(20i32), &Value::from(3i32)]);
    let copy = Value::Object(m.clone());
    assert_eq!(copy.to_string(), "display not implemented for map");
}

#[test]
fn text_order_is_by_character() {
    assert!(text_less("a", "b"));
    assert!(text_less("ab", "abc"));
    assert!(!text_less("abc", "abc"));
    assert!(!text_less("b", "abc"));
    assert!(text_less("Z", "a"));
}
