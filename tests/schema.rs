use retl::schema::{Field, Schema};
use retl::DataType;

#[test]
fn it_schema_from_macro() {
    let s = Schema::with_fields(vec![Field::with_type("a", DataType::Int8)]);

    assert_eq!(s.len(), 1);
    assert_eq!(s.get_field("a").unwrap().dtype, DataType::Int8);
}

#[test]
fn it_identifies_weak_vs_strong() {
    {
        let mut schema = Schema::new();
        schema.add_field("a");
        assert!(schema.is_weak());
    }
    {
        let mut schema = Schema::new();
        let mut field = Field::new("a");
        field.dtype = DataType::String;
        schema.push_field(field);
        assert!(!schema.is_weak());
    }
}

#[test]
fn rename_field_reports_missing_name() {
    let mut schema = Schema::new();
    schema.add_field("a");
    assert_eq!(schema.rename_field("x", "y"), None);
    assert_eq!(schema.rename_field("a", "b"), Some("b".to_string()));
    assert_eq!(schema.field_names(), vec!["b".to_string()]);
    assert_eq!(schema.find_index("b"), Some(0));
    assert_eq!(schema.find_index("a"), None);
}

#[test]
fn remove_field_by_name() {
    let mut schema = Schema::new();
    schema.add_field("a");
    schema.add_field("b");
    let removed = schema.remove("a").unwrap();
    assert_eq!(removed.name, "a");
    assert_eq!(schema.field_names(), vec!["b".to_string()]);
    assert!(schema.remove("a").is_none());
}

#[test]
fn data_type_names() {
    assert_eq!(DataType::Object.as_str(), "object");
    assert_eq!(DataType::from_name("uint16"), Some(DataType::Uint16));
    assert_eq!(DataType::from_name("nope"), None);
    assert!(DataType::Decimal.is_numeric());
    assert!(!DataType::Date.has_default());
}
