use tauri_plugin_sqlite::row::{decode_row, decode_rows, Row};
use tauri_plugin_sqlite::value::{DynValue, SqlValue};

fn names(list: &[&str]) -> Vec<String> {
    list.iter().map(|name| name.to_string()).collect()
}

#[test]
fn decode_row_pairs_columns_with_cells() {
    let row = decode_row(
        &names(&["a", "b"]),
        &vec![SqlValue::Integer(1), SqlValue::Text("x".to_string())],
    );
    assert_eq!(
        row,
        Row {
            cells: vec![
                ("a".to_string(), DynValue::Integer(1)),
                ("b".to_string(), DynValue::Text("x".to_string())),
            ],
        }
    );
    assert_eq!(row.get("a"), Some(&DynValue::Integer(1)));
    assert_eq!(row.get("b"), Some(&DynValue::Text("x".to_string())));
}

#[test]
fn row_get_of_a_missing_column_is_none() {
    let row = decode_row(&names(&["a"]), &vec![SqlValue::Null]);
    assert_eq!(row.get("b"), None);
    assert_eq!(row.get(""), None);
    assert_eq!(row.get("a"), Some(&DynValue::Null));
}

#[test]
fn repeated_column_name_last_write_wins() {
    let row = decode_row(
        &names(&["a", "b", "a"]),
        &vec![SqlValue::Integer(1), SqlValue::Integer(2), SqlValue::Integer(3)],
    );
    assert_eq!(row.get("a"), Some(&DynValue::Integer(3)));
    assert_eq!(row.get("b"), Some(&DynValue::Integer(2)));
}

#[test]
fn decode_row_leaves_out_what_has_no_partner() {
    let short = decode_row(&names(&["a", "b"]), &vec![SqlValue::Integer(1)]);
    assert_eq!(short.cells.len(), 1);
    assert_eq!(short.get("b"), None);
    let long = decode_row(&names(&["a"]), &vec![SqlValue::Integer(1), SqlValue::Integer(2)]);
    assert_eq!(long.cells.len(), 1);
    assert_eq!(long.get("a"), Some(&DynValue::Integer(1)));
}

#[test]
fn decode_row_reads_a_blob_as_byte_values() {
    let row = decode_row(&names(&["data"]), &vec![SqlValue::Binary(vec![7, 200])]);
    assert_eq!(
        row.get("data"),
        Some(&DynValue::Array(vec![DynValue::Integer(7), DynValue::Integer(200)]))
    );
}

#[test]
fn decode_rows_of_no_rows_is_empty() {
    let rows = decode_rows(&names(&["a", "b"]), &vec![]);
    assert_eq!(rows, vec![]);
}

#[test]
fn decode_rows_keeps_the_order() {
    let rows = decode_rows(
        &names(&["n"]),
        &vec![
            vec![SqlValue::Integer(3)],
            vec![SqlValue::Integer(1)],
            vec![SqlValue::Integer(2)],
        ],
    );
    assert_eq!(rows.len(), 3);
    assert_eq!(rows[0].get("n"), Some(&DynValue::Integer(3)));
    assert_eq!(rows[1].get("n"), Some(&DynValue::Integer(1)));
    assert_eq!(rows[2].get("n"), Some(&DynValue::Integer(2)));
}

#[test]
fn row_clone_keeps_the_cells() {
    let row = decode_row(
        &names(&["a", "b"]),
        &vec![SqlValue::Integer(1), SqlValue::Binary(vec![4])],
    );
    assert_eq!(row.clone(), row);
}
