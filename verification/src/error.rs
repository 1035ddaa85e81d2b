//! The failures the library reports.

use crate::engine::{display_failure, engine_error_text};
use vstd::prelude::*;
use vstd::string::*;

verus! {

/// A failure reported by the engine: its result code and its message, either
/// of which may be missing.
#[derive(Debug, Clone, PartialEq, Eq)]
pub struct EngineError {
    pub code: Option<isize>,
    pub message: Option<String>,
}

/// Why an operation failed.
#[derive(Debug, Clone, PartialEq, Eq)]
pub enum Error {
    /// The engine failed while opening, preparing, binding or running.
    Sqlite(EngineError),
    /// No database is open under the path, which the error carries.
    DatabaseNotOpened(String),
}

impl EngineError {
    /// The message of the failure as a sequence of characters, if it has one.
    pub open spec fn message_model(&self) -> Option<Seq<char>> {
        match self.message {
            Some(m) => Some(m@),
            None => None,
        }
    }
}

impl Error {
    /// Whether the error says that no database is open under `path`.
    pub open spec fn names_missing(&self, path: Seq<char>) -> bool {
        match self {
            Error::Sqlite(_) => false,
            Error::DatabaseNotOpened(p) => p@ == path,
        }
    }

    /// The text the error is reported as: the engine's own text for an
    /// engine failure, and "database PATH not opened" for a missing
    /// connection.
    pub open spec fn text(&self) -> Seq<char> {
        match self {
            Error::Sqlite(e) => engine_error_text(e.code, e.message_model()),
            Error::DatabaseNotOpened(path) => "database "@ + path@ + " not opened"@,
        }
    }

    /// Renders the error as the text it is reported as.
    pub fn to_text(&self) -> (text: String)
        ensures
            text@ == self.text(),
    {
        match self {
            Error::Sqlite(e) => display_failure(e.code, &e.message),
            Error::DatabaseNotOpened(path) => {
                let mut text = String::from_str("database ");
                text.append(path.as_str());
                text.append(" not opened");
                text
            },
        }
    }
}

} // verus!
