use retl::cast::try_cast;
use retl::convert::Convert;
use retl::{DataFrame, DataType, Value};

#[test]
fn dataframe_it_iterates() {
    let df = DataFrame::new(
        &["a", "b"],
        vec![vec![1.into(), 10.into()], vec![2.into(), 20.into()]],
    );

    {
        let mut iter = df.iter();

        let row = iter.next();
        assert!(row.is_some());
        let row = row.unwrap();
        assert_eq!(row.cells(), &[1.into(), 10.into()] as &[Value]);

        let row = iter.next();

        assert!(row.is_some());
        let row = row.unwrap();
        assert_eq!(row.cells(), &[2.into(), 20.into()] as &[Value]);

        let row = iter.next();
        assert!(row.is_none());
    }

    assert_eq!(df.shape(), (2, 2));
}

#[test]
fn dataframe_it_pushes_column() {
    let mut df = DataFrame::empty();

    df.push_column("a");
    df.push_column("b");

    assert_eq!(df.shape(), (2, 0));
}

#[test]
fn dataframe_it_pushes_column_and_reshapes_data() {
    // shape (1,2) to (2,2)
    let a = String::from("a");
    let mut df = DataFrame::new(&[a.as_str()], vec![vec![1.into()], vec![2.into()]]);

    assert_eq!(df.shape(), (1, 2));

    df.push_column("b");

    assert_eq!(df.shape(), (2, 2));
    assert_eq!(df.row(0).unwrap(), [1.into(), Value::Null]);
    assert_eq!(df.row(1).unwrap(), [2.into(), Value::Null]);

    // shape (2, 2) to (3, 2)
    df.push_column("c");

    assert_eq!(df.shape(), (3, 2));
    assert_eq!(df.row(0).unwrap(), [1.into(), Value::Null, Value::Null]);
    assert_eq!(df.row(1).unwrap(), [2.into(), Value::Null, Value::Null]);
}

#[test]
fn dataframe_it_removes_column_and_reshapes() {
    let mut df = DataFrame::with_columns(&["a", "b"]);

    assert!(df
        .extend(vec![vec![1.into(), 10.into()], vec![2.into(), 20.into()]])
        .is_ok());

    assert_eq!(df.shape(), (2, 2));
    assert!(df.remove_column(0).is_ok());
    assert_eq!(df.shape(), (1, 2));

    assert_eq!(df.columns(), ["b"]);

    assert_eq!(df.row(0).unwrap(), [10.into()]);
    assert_eq!(df.row(1).unwrap(), [20.into()]);
}

#[test]
fn dataframe_it_pushes_data() {
    let mut df = DataFrame::new(&["a"], vec![vec![1.into()]]);

    assert_eq!(df.shape(), (1, 1));

    let res = df.push_row(vec![2.into()]);
    assert!(res.is_ok());

    assert_eq!(df.shape(), (1, 2));
    assert_eq!(df.row(0).unwrap(), [1.into()]);
    assert_eq!(df.row(1).unwrap(), [2.into()]);

    // don't push row of incorrect length
    assert!(df.push_row(vec![1.into(), 2.into()]).is_err());
}

#[test]
fn it_iterates_column_values() {
    let mut df = DataFrame::new(
        &["a", "b", "c"],
        vec![
            vec![0.into(), 1.into(), 2.into()],
            vec![3.into(), 4.into(), 5.into()],
            vec![6.into(), 7.into(), 8.into()],
            vec![9.into(), 10.into(), 11.into()],
        ],
    );

    let expected_values: Vec<Value> = vec![1.into(), 4.into(), 7.into(), 10.into()];
    let seen = std::cell::RefCell::new(Vec::new());

    let res = df.map_column("b", |v: &Value| {
        seen.borrow_mut().push(v.clone());
        Ok(v.clone())
    });

    assert!(res.is_ok());
    let seen = seen.into_inner();
    assert_eq!(seen, expected_values);
    assert_eq!(seen.len(), 4);
}

#[test]
fn it_casts_column() {
    let mut df = DataFrame::new(
        &["a", "b"],
        vec![
            vec![0.into(), 1.into()],
            vec![2.into(), 3.into()],
            vec![4.into(), 5.into()],
        ],
    );

    let cast_result = df.cast_column("a", DataType::Int64);

    assert!(cast_result.is_ok());
    assert_eq!(df.schema().get_field("a").unwrap().dtype, DataType::Int64);
    assert_eq!(df.row(2).unwrap(), [Value::from(4i64), Value::from(5i32)]);
}

#[test]
fn it_derives_schema_from_data() {
    let mut df = DataFrame::new(
        &["a", "b"],
        vec![
            vec![0.into(), 1.into()],
            vec![2.into(), 3.into()],
            vec![4.into(), 5.into()],
        ],
    );

    df.derive_schema();

    assert_eq!(df.schema().get_field("a").unwrap().dtype, DataType::Int32);
    assert!(!df.schema().get_field("b").unwrap().nullable);
}

#[test]
fn it_converts_date() {
    let mut df = DataFrame::new(&["a"], vec![vec!["2019-09-05 18:14:04".into()]]);
    let conversion_result = df.convert_column("a", Convert::ParseDateTime("%Y-%m-%d %H:%M:%S"));

    assert!(conversion_result.is_ok());
    assert_eq!(df.schema().get_field("a").unwrap().dtype, DataType::Date);
    match &df.row(0).unwrap()[0] {
        Value::Date(d) => assert_eq!(d.to_string(), "2019-09-05 18:14:04"),
        other => panic!("expected a date, got {:?}", other),
    }
}

#[test]
fn mod_it_iterates() {
    let df = DataFrame::new(
        &["a", "b"],
        vec![vec![1.into(), 10.into()], vec![2.into(), 20.into()]],
    );

    {
        let mut iter = df.iter();

        let row = iter.next();
        assert!(row.is_some());
        let row = row.unwrap();
        assert_eq!(row.cells(), [1.into(), 10.into()]);

        let row = iter.next();

        assert!(row.is_some());
        let row = row.unwrap();
        assert_eq!(row.cells(), [2.into(), 20.into()]);

        let row = iter.next();
        assert!(row.is_none());
    }

    assert_eq!(df.shape(), (2, 2));
}

#[test]
fn mod_it_pushes_column() {
    let mut df = DataFrame::empty();

    df.push_column("a");
    df.push_column("b");

    assert_eq!(df.shape(), (2, 0));
}

#[test]
fn mod_it_pushes_column_and_reshapes_data() {
    // shape (1,2) to (2,2)
    let mut df = DataFrame::new(&["a"], vec![vec![1.into()], vec![2.into()]]);

    assert_eq!(df.shape(), (1, 2));

    df.push_column("b");

    assert_eq!(df.shape(), (2, 2));
    assert_eq!(df.row(0).unwrap(), [1.into(), Value::Null]);
    assert_eq!(df.row(1).unwrap(), [2.into(), Value::Null]);

    // shape (2, 2) to (3, 2)
    df.push_column("c");

    assert_eq!(df.shape(), (3, 2));
    assert_eq!(df.row(0).unwrap(), [1.into(), Value::Null, Value::Null]);
    assert_eq!(df.row(1).unwrap(), [2.into(), Value::Null, Value::Null]);
}

#[test]
fn mod_it_removes_column_and_reshapes() {
    let mut df = DataFrame::with_columns(&["a", "b"]);

    assert!(df
        .extend(vec![vec![1.into(), 10.into()], vec![2.into(), 20.into()]])
        .is_ok());

    assert_eq!(df.shape(), (2, 2));
    assert!(df.remove_column(0).is_ok());
    assert_eq!(df.shape(), (1, 2));

    assert_eq!(df.columns(), vec![String::from("b")]);

    assert_eq!(df.row(0).unwrap(), [10.into()]);
    assert_eq!(df.row(1).unwrap(), [20.into()]);
}

#[test]
fn mod_it_pushes_data() {
    let mut df = DataFrame::new(&["a"], vec![vec![1.into()]]);

    assert_eq!(df.shape(), (1, 1));

    let res = df.push_row(vec![2.into()]);
    assert!(res.is_ok());

    assert_eq!(df.shape(), (1, 2));
    assert_eq!(df.row(0).unwrap(), [1.into()]);
    assert_eq!(df.row(1).unwrap(), [2.into()]);

    // don't push row of incorrect length
    assert!(df.push_row(vec![1.into(), 2.into()]).is_err());
}

#[test]
fn it_can_cast() {
    assert!(retl::cast::can_cast(&DataType::Uint8, &DataType::Uint32));
    assert!(!retl::cast::can_cast(&DataType::Int32, &DataType::Uint8));
    assert!(retl::cast::can_try_cast(&DataType::Int32, &DataType::Uint8));
    assert_eq!(try_cast(Value::from(7u8), &DataType::Uint32), Ok(Value::from(7u32)));
}
