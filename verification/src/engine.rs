//! The embedded engine, as far as the library uses it. Nothing in this file
//! is proved: each item states what the library takes on trust from the
//! `sqlite` crate. A failure of the engine leaves each function as an
//! [`EngineError`] that holds the code and the message of the crate's error.

use crate::error::EngineError;
use crate::value::SqlValue;
use vstd::prelude::*;

verus! {

/// `sqlite::Connection`: an open database.
#[verifier::external_type_specification]
#[verifier::external_body]
pub struct ExConnection(sqlite::Connection);

/// `sqlite::Statement`: a prepared statement of a connection.
#[verifier::external_type_specification]
#[verifier::external_body]
pub struct ExStatement<'l>(sqlite::Statement<'l>);

/// `sqlite::Cursor`: a prepared statement that hands out whole rows.
#[verifier::external_type_specification]
#[verifier::external_body]
pub struct ExCursor<'l>(sqlite::Cursor<'l>);

/// `sqlite::Value`: the engine's own value type. The library keeps one only
/// as the payload of a floating-point value, which it carries and never
/// inspects.
#[verifier::external_type_specification]
#[verifier::external_body]
pub struct ExEngineValue(sqlite::Value);

/// `Clone::clone` of `sqlite::Value`: the derived impl copies the value
/// field by field, so the copy is the value it was made from.
pub assume_specification[ <sqlite::Value as Clone>::clone ](value: &sqlite::Value) -> (copy:
    sqlite::Value)
    ensures
        copy == *value,
;

/// The text `sqlite::Error` displays for a code and a message. With a code
/// it joins the two as "message (code N)", with the crate's fixed phrase in
/// place of a missing message; without a code it is the message itself, or
/// the fixed phrase alone.
pub uninterp spec fn engine_error_text(code: Option<isize>, message: Option<Seq<char>>) -> Seq<char>;

/// `sqlite::Connection::open`: opens the database at `path` for reading and
/// writing, creating it if it is absent. Whether it succeeds depends on the
/// file system, so nothing is claimed of the result.
#[verifier::external_body]
pub(crate) fn open_connection(path: &str) -> (opened: Result<sqlite::Connection, EngineError>) {
    sqlite::Connection::open(path).map_err(|e| EngineError { code: e.code, message: e.message })
}

/// `sqlite::Connection::execute`: runs SQL text without parameters and
/// drops any rows. The outcome is the engine's; nothing is claimed of it.
#[verifier::external_body]
pub(crate) fn run_script(connection: &sqlite::Connection, sql: &str) -> (done: Result<
    (),
    EngineError,
>) {
    connection.execute(sql).map_err(|e| EngineError { code: e.code, message: e.message })
}

/// `sqlite::Connection::prepare`: compiles SQL text into a statement of the
/// connection. The outcome is the engine's; nothing is claimed of it.
#[verifier::external_body]
pub(crate) fn prepare<'l>(connection: &'l sqlite::Connection, sql: &str) -> (prepared: Result<
    sqlite::Statement<'l>,
    EngineError,
>) {
    connection.prepare(sql).map_err(|e| EngineError { code: e.code, message: e.message })
}

/// `sqlite::Statement::bind`: binds one value at a 1-based position. The
/// crate asserts that the position is not 0 and hands it on as a C integer.
/// Whether the engine accepts the bind is its own decision.
#[verifier::external_body]
pub(crate) fn bind_at(statement: &mut sqlite::Statement<'_>, position: usize, cell: &SqlValue) -> (done:
    Result<(), EngineError>)
    requires
        position >= 1,
{
    let bound = match cell {
        SqlValue::Null => statement.bind(position, ()),
        SqlValue::Integer(n) => statement.bind(position, *n),
        SqlValue::Float(f) => statement.bind(position, f),
        SqlValue::Text(s) => statement.bind(position, s.as_str()),
        SqlValue::Binary(b) => statement.bind(position, b.as_slice()),
    };
    bound.map_err(|e| EngineError { code: e.code, message: e.message })
}

/// `sqlite::Statement::next`: advances the statement by one step. Whether a
/// row became available is dropped; a failure is handed on.
#[verifier::external_body]
pub(crate) fn step(statement: &mut sqlite::Statement<'_>) -> (done: Result<(), EngineError>) {
    statement.next().map(|_| ()).map_err(|e| EngineError { code: e.code, message: e.message })
}

/// `sqlite::Statement::reset`: makes the statement ready to run again.
#[verifier::external_body]
pub(crate) fn reset(statement: &mut sqlite::Statement<'_>) -> (done: Result<(), EngineError>) {
    statement.reset().map_err(|e| EngineError { code: e.code, message: e.message })
}

/// `sqlite::Statement::into_cursor`: turns the statement into a cursor.
#[verifier::external_body]
pub(crate) fn into_cursor<'l>(statement: sqlite::Statement<'l>) -> (cursor: sqlite::Cursor<'l>) {
    statement.into_cursor()
}

/// Writes an engine value of the library as the `sqlite::Value` of the same
/// variant and content.
#[verifier::external_body]
pub(crate) fn to_engine(cell: &SqlValue) -> (raw: sqlite::Value) {
    match cell {
        SqlValue::Null => sqlite::Value::Null,
        SqlValue::Integer(n) => sqlite::Value::Integer(*n),
        SqlValue::Float(f) => f.clone(),
        SqlValue::Text(s) => sqlite::Value::String(s.clone()),
        SqlValue::Binary(b) => sqlite::Value::Binary(b.clone()),
    }
}

/// Reads a `sqlite::Value` as the engine value of the library of the same
/// variant and content. Nothing is claimed of the result, as Verus cannot
/// look into the argument.
#[verifier::external_body]
pub(crate) fn from_engine(raw: &sqlite::Value) -> (cell: SqlValue) {
    match raw {
        sqlite::Value::Null => SqlValue::Null,
        sqlite::Value::Integer(n) => SqlValue::Integer(*n),
        sqlite::Value::Float(_) => SqlValue::Float(raw.clone()),
        sqlite::Value::String(s) => SqlValue::Text(s.clone()),
        sqlite::Value::Binary(b) => SqlValue::Binary(b.clone()),
    }
}

/// `sqlite::Cursor::bind`: resets the cursor and binds the values at the
/// positions 1, 2, ... in order.
#[verifier::external_body]
pub(crate) fn cursor_bind(cursor: &mut sqlite::Cursor<'_>, params: &Vec<sqlite::Value>) -> (done:
    Result<(), EngineError>) {
    cursor.bind(params.as_slice()).map_err(|e| EngineError { code: e.code, message: e.message })
}

/// `sqlite::Cursor::next`: advances to the next row and hands out a copy of
/// its cells, or `None` once the rows are used up.
#[verifier::external_body]
pub(crate) fn cursor_next(cursor: &mut sqlite::Cursor<'_>) -> (row: Result<
    Option<Vec<sqlite::Value>>,
    EngineError,
>) {
    let row = cursor.next().map(|cells| cells.map(|cells| cells.to_vec()));
    row.map_err(|e| EngineError { code: e.code, message: e.message })
}

/// `Display` of `sqlite::Error`, applied to an error with the given code and
/// message: the result is the text the crate displays for them. Without a
/// code that text is the message itself, or the phrase "an SQLite error"
/// where the message is missing too.
#[verifier::external_body]
pub(crate) fn display_failure(code: Option<isize>, message: &Option<String>) -> (text: String)
    ensures
        text@ == engine_error_text(
            code,
            match *message {
                Some(m) => Some(m@),
                None => None,
            },
        ),
        code is None ==> match *message {
            Some(m) => text@ == m@,
            None => text@ == "an SQLite error"@,
        },
{
    sqlite::Error { code, message: message.clone() }.to_string()
}

} // verus!
