//! The registry of open databases: one connection per path.

use crate::error::Error;
use vstd::hash_map::StringHashMap;
use vstd::prelude::*;
use vstd::string::*;

verus! {

/// The open databases, each under the path it was opened with. An entry is
/// never removed; opening a path again replaces its connection.
pub struct SqliteMap {
    connections: StringHashMap<sqlite::Connection>,
}

impl View for SqliteMap {
    type V = Map<Seq<char>, sqlite::Connection>;

    closed spec fn view(&self) -> Map<Seq<char>, sqlite::Connection> {
        self.connections@
    }
}

impl SqliteMap {
    /// A registry with no open database.
    pub fn new() -> (registry: Self)
        ensures
            registry@ == Map::<Seq<char>, sqlite::Connection>::empty(),
    {
        SqliteMap { connections: StringHashMap::new() }
    }

    /// The number of open databases.
    pub fn len(&self) -> (count: usize)
        ensures
            count == self@.len(),
    {
        self.connections.len()
    }

    /// Tells whether a database is open under the path.
    pub fn contains(&self, path: &str) -> (open: bool)
        ensures
            open == self@.contains_key(path@),
    {
        self.connections.contains_key(path)
    }

    /// Registers a connection under a path. A connection that was there
    /// under the same path is replaced, and no other entry changes.
    pub fn insert(&mut self, path: String, connection: sqlite::Connection)
        ensures
            final(self)@ == old(self)@.insert(path@, connection),
    {
        self.connections.insert(path, connection);
    }

    /// Looks up the connection of a path. It fails with
    /// `DatabaseNotOpened`, carrying the path, exactly if no database is
    /// open under it.
    pub fn get(&self, path: &str) -> (found: Result<&sqlite::Connection, Error>)
        ensures
            match found {
                Ok(connection) => self@.contains_key(path@) && *connection == self@[path@],
                Err(error) => !self@.contains_key(path@) && error.names_missing(path@),
            },
    {
        match self.connections.get(path) {
            Some(connection) => Ok(connection),
            None => Err(Error::DatabaseNotOpened(String::from_str(path))),
        }
    }
}

impl Default for SqliteMap {
    fn default() -> (registry: Self)
        ensures
            registry@ == Map::<Seq<char>, sqlite::Connection>::empty(),
    {
        SqliteMap::new()
    }
}

/// Opening a path that is open already replaces its connection: the
/// registry ends as if only the second opening had happened, with the same
/// paths as after the first.
pub proof fn law_reopen_replaces(
    before: Map<Seq<char>, sqlite::Connection>,
    path: Seq<char>,
    first: sqlite::Connection,
    second: sqlite::Connection,
)
    ensures
        before.insert(path, first).insert(path, second) == before.insert(path, second),
        before.insert(path, first).insert(path, second).dom() == before.insert(path, first).dom(),
        before.insert(path, first).insert(path, second)[path] == second,
{
    assert(before.insert(path, first).insert(path, second) =~= before.insert(path, second));
    assert(before.insert(path, first).insert(path, second).dom() =~= before.insert(
        path,
        first,
    ).dom());
}

} // verus!
