use tauri_plugin_sqlite::codec::{decode, encode, is_batch, row_slots, select_params};
use tauri_plugin_sqlite::value::{DynValue, SqlValue};

fn text(s: &str) -> DynValue {
    DynValue::Text(s.to_string())
}

#[test]
fn encode_null_is_sql_null() {
    assert_eq!(encode(&DynValue::Null), Some(SqlValue::Null));
}

#[test]
fn encode_true_is_integer_one() {
    assert_eq!(encode(&DynValue::Boolean(true)), Some(SqlValue::Integer(1)));
}

#[test]
fn encode_false_is_integer_zero() {
    assert_eq!(encode(&DynValue::Boolean(false)), Some(SqlValue::Integer(0)));
}

#[test]
fn encode_integer_keeps_the_number() {
    assert_eq!(encode(&DynValue::Integer(-42)), Some(SqlValue::Integer(-42)));
    assert_eq!(encode(&DynValue::Integer(i64::MAX)), Some(SqlValue::Integer(i64::MAX)));
    assert_eq!(encode(&DynValue::Integer(i64::MIN)), Some(SqlValue::Integer(i64::MIN)));
}

#[test]
fn encode_float_keeps_the_number() {
    let value = DynValue::Float(sqlite::Value::Float(2.5));
    assert_eq!(encode(&value), Some(SqlValue::Float(sqlite::Value::Float(2.5))));
}

#[test]
fn encode_text_keeps_the_text() {
    assert_eq!(encode(&text("héllo")), Some(SqlValue::Text("héllo".to_string())));
}

#[test]
fn encode_array_has_no_engine_value() {
    assert_eq!(encode(&DynValue::Array(vec![DynValue::Integer(1)])), None);
    assert_eq!(encode(&DynValue::Array(vec![])), None);
}

#[test]
fn encode_unsupported_has_no_engine_value() {
    assert_eq!(encode(&DynValue::Unsupported), None);
}

#[test]
fn decode_maps_each_kind() {
    assert_eq!(decode(&SqlValue::Null), DynValue::Null);
    assert_eq!(decode(&SqlValue::Integer(7)), DynValue::Integer(7));
    assert_eq!(
        decode(&SqlValue::Float(sqlite::Value::Float(0.25))),
        DynValue::Float(sqlite::Value::Float(0.25))
    );
    assert_eq!(decode(&SqlValue::Text("x".to_string())), text("x"));
}

#[test]
fn decode_binary_is_an_array_of_byte_values() {
    assert_eq!(
        decode(&SqlValue::Binary(vec![0, 1, 255])),
        DynValue::Array(vec![
            DynValue::Integer(0),
            DynValue::Integer(1),
            DynValue::Integer(255),
        ])
    );
    assert_eq!(decode(&SqlValue::Binary(vec![])), DynValue::Array(vec![]));
}

#[test]
fn round_trip_keeps_null_integer_float_and_text() {
    let values = vec![
        DynValue::Null,
        DynValue::Integer(12345),
        DynValue::Float(sqlite::Value::Float(-1.75)),
        text("round"),
    ];
    for value in values.iter() {
        let cell = encode(value).unwrap();
        assert_eq!(&decode(&cell), value);
    }
}

#[test]
fn round_trip_turns_a_boolean_into_an_integer() {
    let cell = encode(&DynValue::Boolean(true)).unwrap();
    assert_eq!(decode(&cell), DynValue::Integer(1));
    let cell = encode(&DynValue::Boolean(false)).unwrap();
    assert_eq!(decode(&cell), DynValue::Integer(0));
}

#[test]
fn binary_does_not_round_trip() {
    let read = decode(&SqlValue::Binary(vec![9, 8]));
    assert_eq!(encode(&read), None);
}

#[test]
fn is_batch_looks_at_the_first_element_only() {
    assert!(is_batch(&vec![DynValue::Array(vec![]), DynValue::Array(vec![])]));
    assert!(is_batch(&vec![DynValue::Array(vec![DynValue::Integer(1)])]));
    assert!(!is_batch(&vec![DynValue::Integer(1), DynValue::Array(vec![])]));
    assert!(!is_batch(&vec![DynValue::Null]));
}

#[test]
fn is_batch_is_false_for_the_empty_list() {
    assert!(!is_batch(&vec![]));
}

#[test]
fn row_slots_keeps_each_position() {
    let row = vec![
        DynValue::Integer(1),
        DynValue::Unsupported,
        text("x"),
        DynValue::Array(vec![]),
        DynValue::Boolean(true),
    ];
    assert_eq!(
        row_slots(&row),
        vec![
            Some(SqlValue::Integer(1)),
            None,
            Some(SqlValue::Text("x".to_string())),
            None,
            Some(SqlValue::Integer(1)),
        ]
    );
}

#[test]
fn row_slots_of_the_empty_row_is_empty() {
    assert_eq!(row_slots(&vec![]), vec![]);
}

#[test]
fn select_params_keeps_each_position() {
    let values = vec![
        DynValue::Unsupported,
        DynValue::Integer(2),
        DynValue::Array(vec![DynValue::Integer(3)]),
        DynValue::Null,
        DynValue::Boolean(false),
    ];
    assert_eq!(
        select_params(&values),
        vec![
            SqlValue::Null,
            SqlValue::Integer(2),
            SqlValue::Null,
            SqlValue::Null,
            SqlValue::Integer(0),
        ]
    );
}

#[test]
fn select_params_of_the_empty_list_is_empty() {
    assert_eq!(select_params(&vec![]), vec![]);
}

#[test]
fn bind_plan_of_a_batch_has_one_run_per_row() {
    let values = vec![
        DynValue::Array(vec![DynValue::Integer(1), text("x")]),
        DynValue::Array(vec![DynValue::Integer(2), text("y")]),
        DynValue::Array(vec![DynValue::Boolean(true), DynValue::Null]),
    ];
    assert_eq!(
        tauri_plugin_sqlite::codec::bind_plan(&values),
        vec![
            vec![Some(SqlValue::Integer(1)), Some(SqlValue::Text("x".to_string()))],
            vec![Some(SqlValue::Integer(2)), Some(SqlValue::Text("y".to_string()))],
            vec![Some(SqlValue::Integer(1)), Some(SqlValue::Null)],
        ]
    );
}

#[test]
fn bind_plan_clears_what_an_earlier_row_bound() {
    let values = vec![
        DynValue::Array(vec![DynValue::Integer(1), text("x"), DynValue::Unsupported]),
        DynValue::Array(vec![]),
        DynValue::Array(vec![DynValue::Unsupported, DynValue::Boolean(true)]),
        DynValue::Array(vec![DynValue::Integer(4), DynValue::Unsupported, DynValue::Integer(5)]),
        DynValue::Array(vec![DynValue::Integer(6)]),
    ];
    assert_eq!(
        tauri_plugin_sqlite::codec::bind_plan(&values),
        vec![
            vec![Some(SqlValue::Integer(1)), Some(SqlValue::Text("x".to_string())), None],
            vec![Some(SqlValue::Null), Some(SqlValue::Null), None],
            vec![Some(SqlValue::Null), Some(SqlValue::Integer(1)), None],
            vec![Some(SqlValue::Integer(4)), Some(SqlValue::Null), Some(SqlValue::Integer(5))],
            vec![Some(SqlValue::Integer(6)), Some(SqlValue::Null), Some(SqlValue::Null)],
        ]
    );
}

#[test]
fn next_run_marks_what_it_binds() {
    let row = vec![DynValue::Unsupported, DynValue::Integer(7)];
    let (run, marks) = tauri_plugin_sqlite::codec::next_run(&row, &vec![true, false, false, true]);
    assert_eq!(
        run,
        vec![Some(SqlValue::Null), Some(SqlValue::Integer(7)), None, Some(SqlValue::Null)]
    );
    assert_eq!(marks, vec![true, true, false, true]);
    let (run, marks) = tauri_plugin_sqlite::codec::next_run(&row, &vec![]);
    assert_eq!(run, vec![None, Some(SqlValue::Integer(7))]);
    assert_eq!(marks, vec![false, true]);
}

#[test]
fn bind_plan_of_a_flat_list_has_one_run() {
    let values = vec![DynValue::Integer(1), DynValue::Array(vec![]), text("x")];
    assert_eq!(
        tauri_plugin_sqlite::codec::bind_plan(&values),
        vec![vec![Some(SqlValue::Integer(1)), None, Some(SqlValue::Text("x".to_string()))]]
    );
}

#[test]
fn bind_plan_of_the_empty_list_has_one_run_without_binds() {
    assert_eq!(tauri_plugin_sqlite::codec::bind_plan(&vec![]), vec![vec![]]);
}

#[test]
fn clone_keeps_a_nested_value() {
    let value = DynValue::Array(vec![
        DynValue::Null,
        DynValue::Boolean(true),
        DynValue::Integer(-3),
        DynValue::Float(sqlite::Value::Float(6.5)),
        text("inner"),
        DynValue::Array(vec![DynValue::Array(vec![]), DynValue::Unsupported]),
    ]);
    assert_eq!(value.clone(), value);
}
