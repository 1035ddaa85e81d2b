use tauri_plugin_sqlite::commands::{bind_slots, run_plan};
use tauri_plugin_sqlite::statement::Prepared;
use tauri_plugin_sqlite::value::SqlValue;

fn memory_with(script: &str) -> sqlite::Connection {
    let connection = sqlite::Connection::open(":memory:").unwrap();
    connection.execute(script).unwrap();
    connection
}

fn count(connection: &sqlite::Connection, sql: &str) -> i64 {
    let mut statement = connection.prepare(sql).unwrap();
    assert_eq!(statement.next().unwrap(), sqlite::State::Row);
    statement.read::<i64>(0).unwrap()
}

fn only_row(connection: &sqlite::Connection, sql: &str) -> Vec<sqlite::Value> {
    let mut cursor = connection.prepare(sql).unwrap().into_cursor();
    let row = cursor.next().unwrap().unwrap().to_vec();
    assert!(cursor.next().unwrap().is_none());
    row
}

#[test]
fn bind_slots_binds_from_position_one() {
    let connection = memory_with("CREATE TABLE t(a, b, c)");
    {
        let mut statement = Prepared::new(&connection, "INSERT INTO t VALUES (?, ?, ?)").unwrap();
        let run = vec![Some(SqlValue::Integer(10)), None, Some(SqlValue::Text("z".to_string()))];
        assert_eq!(bind_slots(&mut statement, &run), Ok(()));
        assert_eq!(statement.step(), Ok(()));
    }
    assert_eq!(
        only_row(&connection, "SELECT a, b, c FROM t"),
        vec![
            sqlite::Value::Integer(10),
            sqlite::Value::Null,
            sqlite::Value::String("z".to_string()),
        ]
    );
}

#[test]
fn bind_slots_binds_each_kind() {
    let connection = memory_with("CREATE TABLE t(a, b, c)");
    {
        let mut statement = Prepared::new(&connection, "INSERT INTO t VALUES (?, ?, ?)").unwrap();
        let run = vec![
            Some(SqlValue::Null),
            Some(SqlValue::Float(sqlite::Value::Float(3.25))),
            Some(SqlValue::Binary(vec![1, 2, 3])),
        ];
        assert_eq!(bind_slots(&mut statement, &run), Ok(()));
        assert_eq!(statement.step(), Ok(()));
    }
    assert_eq!(
        only_row(&connection, "SELECT a, b, c FROM t"),
        vec![
            sqlite::Value::Null,
            sqlite::Value::Float(3.25),
            sqlite::Value::Binary(vec![1, 2, 3]),
        ]
    );
}

#[test]
fn bind_slots_without_binds_succeeds() {
    let connection = memory_with("CREATE TABLE t(a)");
    let mut statement = Prepared::new(&connection, "SELECT 1").unwrap();
    assert_eq!(bind_slots(&mut statement, &vec![]), Ok(()));
    assert_eq!(bind_slots(&mut statement, &vec![None, None]), Ok(()));
}

#[test]
fn bind_slots_reports_a_position_out_of_range() {
    let connection = memory_with("CREATE TABLE t(a)");
    let mut statement = Prepared::new(&connection, "SELECT ?").unwrap();
    let run = vec![None, Some(SqlValue::Integer(1))];
    match bind_slots(&mut statement, &run) {
        Err(failure) => assert_eq!(failure.code, Some(25)),
        Ok(()) => panic!("the bind was accepted"),
    }
}

#[test]
fn bind_slots_stops_at_the_refused_bind() {
    let connection = memory_with("CREATE TABLE t(a, b)");
    {
        let mut statement = Prepared::new(&connection, "INSERT INTO t VALUES (?, ?)").unwrap();
        let run = vec![
            Some(SqlValue::Integer(1)),
            None,
            Some(SqlValue::Integer(3)),
            Some(SqlValue::Integer(4)),
        ];
        assert!(bind_slots(&mut statement, &run).is_err());
        // The bind before the refused one was made: position 1 holds 1.
        assert_eq!(statement.step(), Ok(()));
    }
    assert_eq!(
        only_row(&connection, "SELECT a, b FROM t"),
        vec![sqlite::Value::Integer(1), sqlite::Value::Null]
    );
}

#[test]
fn prepared_rejects_malformed_sql() {
    let connection = memory_with("CREATE TABLE t(a)");
    let made = Prepared::new(&connection, "SELEC 1");
    match made {
        Err(failure) => assert_eq!(failure.code, Some(1)),
        Ok(_) => panic!("the text was accepted"),
    };
}

#[test]
fn prepared_reset_lets_a_statement_run_again() {
    let connection = memory_with("CREATE TABLE t(a)");
    {
        let mut statement = Prepared::new(&connection, "INSERT INTO t VALUES (?)").unwrap();
        assert_eq!(statement.bind(1, &SqlValue::Integer(7)), Ok(()));
        assert_eq!(statement.step(), Ok(()));
        assert_eq!(statement.reset(), Ok(()));
        assert_eq!(statement.step(), Ok(()));
    }
    assert_eq!(count(&connection, "SELECT count(*) FROM t WHERE a = 7"), 2);
}

#[test]
fn rows_hand_out_each_row_then_the_end() {
    let connection = memory_with(
        "CREATE TABLE t(a); INSERT INTO t VALUES (1); INSERT INTO t VALUES (2); INSERT INTO t VALUES (3);",
    );
    let statement = Prepared::new(&connection, "SELECT a FROM t WHERE a >= ? ORDER BY a").unwrap();
    let mut rows = statement.into_rows();
    assert_eq!(rows.bind(&vec![SqlValue::Integer(2)]), Ok(()));
    assert_eq!(rows.next(), Ok(Some(vec![SqlValue::Integer(2)])));
    assert_eq!(rows.next(), Ok(Some(vec![SqlValue::Integer(3)])));
    assert_eq!(rows.next(), Ok(None));
    assert_eq!(rows.next(), Ok(None));
}

#[test]
fn run_plan_runs_each_run_of_a_batch() {
    let connection = memory_with("CREATE TABLE t(a)");
    let plan = vec![
        vec![Some(SqlValue::Integer(1))],
        vec![Some(SqlValue::Integer(2))],
        vec![Some(SqlValue::Integer(3))],
    ];
    {
        let mut statement = Prepared::new(&connection, "INSERT INTO t VALUES (?)").unwrap();
        assert_eq!(run_plan(&mut statement, &plan, true), Ok(()));
    }
    assert_eq!(count(&connection, "SELECT count(*) FROM t"), 3);
    assert_eq!(count(&connection, "SELECT sum(a) FROM t"), 6);
}

#[test]
fn run_plan_stops_at_the_first_failure() {
    let connection = memory_with("CREATE TABLE t(a INTEGER PRIMARY KEY)");
    let plan = vec![
        vec![Some(SqlValue::Integer(1))],
        vec![Some(SqlValue::Integer(1))],
        vec![Some(SqlValue::Integer(2))],
    ];
    {
        let mut statement = Prepared::new(&connection, "INSERT INTO t VALUES (?)").unwrap();
        match run_plan(&mut statement, &plan, true) {
            Err(failure) => assert_eq!(failure.code, Some(19)),
            Ok(()) => panic!("the second row was accepted"),
        }
    }
    assert_eq!(count(&connection, "SELECT count(*) FROM t"), 1);
}

#[test]
fn run_plan_of_a_flat_list_runs_once() {
    let connection = memory_with("CREATE TABLE t(a, b)");
    let plan = vec![vec![Some(SqlValue::Integer(5)), Some(SqlValue::Text("x".to_string()))]];
    {
        let mut statement = Prepared::new(&connection, "INSERT INTO t VALUES (?, ?)").unwrap();
        assert_eq!(run_plan(&mut statement, &plan, false), Ok(()));
    }
    assert_eq!(
        only_row(&connection, "SELECT a, b FROM t"),
        vec![sqlite::Value::Integer(5), sqlite::Value::String("x".to_string())]
    );
}

#[test]
fn run_plan_without_runs_does_nothing() {
    let connection = memory_with("CREATE TABLE t(a)");
    {
        let mut statement = Prepared::new(&connection, "INSERT INTO t VALUES (1)").unwrap();
        assert_eq!(run_plan(&mut statement, &vec![], true), Ok(()));
        assert_eq!(run_plan(&mut statement, &vec![], false), Ok(()));
    }
    assert_eq!(count(&connection, "SELECT count(*) FROM t"), 0);
}
