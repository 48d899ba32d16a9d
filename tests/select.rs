use retl::select::{select, Select};
use retl::{DataFrame, Value};

fn row(values: &[i32]) -> Vec<Value> {
    values.iter().map(|v| Value::from(*v)).collect()
}

fn frame() -> DataFrame {
    DataFrame::new(
        &["a", "b", "c"],
        vec![row(&[0, 1, 2]), row(&[3, 4, 5]), row(&[6, 7, 8]), row(&[9, 10, 11])],
    )
}

#[test]
fn it_selects_columns_by_name() {
    let df = frame();

    let cols: &[Select] = &["b".into(), "c".into()];
    let out_df = select(&df, cols);

    assert!(out_df.is_ok());
    let out_df = out_df.unwrap();

    assert_eq!(out_df.shape(), (2, 4));

    assert_eq!(out_df.row(0).unwrap().to_vec(), row(&[1, 2]));
    assert_eq!(out_df.row(1).unwrap().to_vec(), row(&[4, 5]));
    assert_eq!(out_df.row(2).unwrap().to_vec(), row(&[7, 8]));
    assert_eq!(out_df.row(3).unwrap().to_vec(), row(&[10, 11]));

    assert_eq!(
        out_df.schema().field_names(),
        vec!["b".to_string(), "c".to_string()]
    );
}

#[test]
fn it_selects_columns_by_name_reordered() {
    let df = frame();

    let cols: &[Select] = &["c".into(), "a".into()];
    let out_df = select(&df, cols);

    assert!(out_df.is_ok());
    let out_df = out_df.unwrap();

    assert_eq!(out_df.shape(), (2, 4));

    assert_eq!(out_df.row(0).unwrap().to_vec(), vec![2.into(), 0.into()]);
    assert_eq!(out_df.row(1).unwrap().to_vec(), vec![5.into(), 3.into()]);
    assert_eq!(out_df.row(2).unwrap().to_vec(), vec![8.into(), 6.into()]);
    assert_eq!(out_df.row(3).unwrap().to_vec(), vec![11.into(), 9.into()]);

    assert_eq!(
        out_df.schema().field_names(),
        vec!["c".to_string(), "a".to_string()]
    );
}

#[test]
fn it_selects_columns_and_aliases() {
    let df = frame();

    let cols: &[Select] = &[("a", "z").into()];
    let out_df = select(&df, cols);

    assert!(out_df.is_ok());
    let out_df = out_df.unwrap();

    assert_eq!(out_df.shape(), (1, 4));

    assert_eq!(out_df.row(0).unwrap().to_vec(), vec![0.into()]);
    assert_eq!(out_df.row(1).unwrap().to_vec(), vec![3.into()]);
    assert_eq!(out_df.row(2).unwrap().to_vec(), vec![6.into()]);
    assert_eq!(out_df.row(3).unwrap().to_vec(), vec![9.into()]);

    assert_eq!(out_df.schema().field_names(), vec!["z".to_string()]);
}

#[test]
fn select_fails_on_first_unknown_name() {
    let df = frame();
    let cols: &[Select] = &["b".into(), "x".into(), "y".into()];
    match select(&df, cols) {
        Err(retl::select::Error::InvalidColumnName { name }) => assert_eq!(name, "x"),
        other => panic!("unexpected {:?}", other.map(|d| d.shape())),
    }
}
