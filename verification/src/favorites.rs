use vstd::prelude::*;
use vstd::string::StringExecFns;

use crate::errors::EngineError;

verus! {

#[verifier::external_type_specification]
#[verifier::external_body]
pub struct ExConnection(rusqlite::Connection);

#[verifier::external_type_specification]
#[verifier::external_body]
pub struct ExRusqliteError(rusqlite::Error);

/// A favorite entry as persisted by the store: a store-assigned unique id and
/// the saved text.
#[derive(Debug)]
pub struct Favorite {
    pub id: i32,
    pub value: String,
}

impl Favorite {
    /// Relies on rusqlite::Connection::execute running an INSERT statement:
    /// on success one row holding `value` was added to the favorite table,
    /// with an id the store assigned.
    #[verifier::external_body]
    pub fn create(conn: &rusqlite::Connection, value: String) -> (r: Result<(), rusqlite::Error>) {
        match conn.execute("INSERT INTO favorite (value) VALUES (:value)", &[(":value", &value)]) {
            Ok(_) => Ok(()),
            Err(e) => Err(e),
        }
    }

    /// Relies on rusqlite's Connection::prepare, Statement::query, Rows::next
    /// and Row::get: on success the result holds each row of the favorite
    /// table as an id/value record, in the store's order.
    #[verifier::external_body]
    pub fn find_all(conn: &rusqlite::Connection) -> (r: Result<Vec<Favorite>, rusqlite::Error>) {
        let mut stmt = conn.prepare("SELECT id, value FROM favorite")?;
        let mut rows = stmt.query([])?;
        let mut out: Vec<Favorite> = Vec::new();
        while let Some(row) = rows.next()? {
            out.push(Favorite { id: row.get(0)?, value: row.get(1)? });
        }
        Ok(out)
    }

    /// Relies on rusqlite::Connection::execute running a DELETE statement:
    /// on success no row with this id remains; deleting an absent id is not
    /// an error.
    #[verifier::external_body]
    pub(crate) fn delete(conn: &rusqlite::Connection, id: i32) -> (r: Result<(), rusqlite::Error>) {
        match conn.execute("DELETE FROM favorite WHERE id = :id", &[(":id", &id)]) {
            Ok(_) => Ok(()),
            Err(e) => Err(e),
        }
    }
}

/// Relies on rusqlite::Connection::open: opens (creating it if absent) the
/// database file at `path`.
#[verifier::external_body]
fn open_connection(path: &str) -> (r: Result<rusqlite::Connection, rusqlite::Error>) {
    rusqlite::Connection::open(path)
}

/// Relies on rusqlite::Connection::open_in_memory: opens a fresh, empty
/// database held in memory.
#[verifier::external_body]
fn open_memory_connection() -> (r: Result<rusqlite::Connection, rusqlite::Error>) {
    rusqlite::Connection::open_in_memory()
}

/// Relies on rusqlite::Connection::execute running CREATE TABLE IF NOT
/// EXISTS: on success the favorite table exists, with an integer primary key
/// `id` and a required text column `value`.
#[verifier::external_body]
fn create_favorite_table(conn: &rusqlite::Connection) -> (r: Result<(), rusqlite::Error>) {
    let sql = "CREATE TABLE IF NOT EXISTS favorite (id INTEGER PRIMARY KEY, value TEXT NOT NULL);";
    match conn.execute(sql, []) {
        Ok(_) => Ok(()),
        Err(e) => Err(e),
    }
}

/// Handle on the persistent favorite store: a relational database holding
/// one table of id/value records that survive restarts.
pub struct FavoriteStore {
    conn: rusqlite::Connection,
}

impl FavoriteStore {
    /// Opens (creating if needed) the store file `store.db` under `dir` and
    /// makes sure the favorite table exists. Every failure is reported as an
    /// I/O error.
    pub fn open(dir: &str) -> (r: Result<FavoriteStore, EngineError>)
        ensures
            r matches Err(e) ==> e == EngineError::Io,
    {
        let path = String::from_str(dir).concat("/store.db");
        match open_connection(path.as_str()) {
            Ok(conn) => match create_favorite_table(&conn) {
                Ok(_) => Ok(FavoriteStore { conn }),
                Err(_) => Err(EngineError::Io),
            },
            Err(_) => Err(EngineError::Io),
        }
    }

    /// Opens a fresh store held in memory; its records do not survive the
    /// process. Every failure is reported as an I/O error.
    pub fn open_in_memory() -> (r: Result<FavoriteStore, EngineError>)
        ensures
            r matches Err(e) ==> e == EngineError::Io,
    {
        match open_memory_connection() {
            Ok(conn) => match create_favorite_table(&conn) {
                Ok(_) => Ok(FavoriteStore { conn }),
                Err(_) => Err(EngineError::Io),
            },
            Err(_) => Err(EngineError::Io),
        }
    }

    /// The store's connection, for the record-level operations.
    pub(crate) fn connection(&self) -> &rusqlite::Connection {
        &self.conn
    }
}

} // verus!
