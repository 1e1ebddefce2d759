//! The SQL that each backend is spoken to in.

use vstd::prelude::*;
use vstd::string::*;
use crate::script::{Statement, StatementView};
use crate::migration::{clone_text, text_of};

verus! {

/// A kind of database.
#[derive(Debug, Clone, Copy, PartialEq, Eq, Structural)]
pub enum Backend {
    Postgres,
    Sqlite,
}

/// Creates the schema and the tracking table in Postgres.
pub const POSTGRES_INIT_UP_SQL: &'static str =
    "CREATE SCHEMA crude;\n\nCREATE TABLE crude.migrations (\n    id INTEGER PRIMARY KEY GENERATED ALWAYS AS IDENTITY,\n    created_at TIMESTAMP DEFAULT NOW(),\n    updated_at TIMESTAMP DEFAULT NOW(),\n    name VARCHAR(255) NOT NULL,\n    hash VARCHAR(255) NOT NULL,\n    down_sql TEXT,\n    UNIQUE (name)\n);\n";

/// Creates the tracking table in SQLite.
pub const SQLITE_INIT_UP_SQL: &'static str =
    "CREATE TABLE crude_migrations (\n    id INTEGER PRIMARY KEY AUTOINCREMENT,\n    created_at TIMESTAMP DEFAULT CURRENT_TIMESTAMP,\n    updated_at TIMESTAMP DEFAULT CURRENT_TIMESTAMP,\n    name TEXT NOT NULL UNIQUE,\n    hash TEXT NOT NULL,\n    down_sql TEXT\n);\n";

/// Asks Postgres whether the tracking table exists; answers with a boolean.
pub const POSTGRES_PROBE_SQL: &'static str =
    "SELECT EXISTS (SELECT FROM information_schema.tables WHERE table_schema = 'crude' AND table_name = 'migrations')";

/// Asks SQLite how many tables have the name of the tracking table.
pub const SQLITE_PROBE_SQL: &'static str =
    "SELECT COUNT(*) FROM sqlite_master WHERE type='table' AND name='crude_migrations'";

/// Reads the tracking rows of Postgres, oldest first.
pub const POSTGRES_SELECT_SQL: &'static str =
    "SELECT name, hash, down_sql FROM crude.migrations ORDER BY id ASC";

/// Reads the tracking rows of SQLite, oldest first.
pub const SQLITE_SELECT_SQL: &'static str =
    "SELECT name, hash, down_sql FROM crude_migrations ORDER BY id ASC";

/// Inserts the tracking row of an applied migration into Postgres.
pub const POSTGRES_RECORD_SQL: &'static str =
    "INSERT INTO crude.migrations (name, hash, down_sql) VALUES ($1, $2, $3)";

/// Inserts the tracking row of an applied migration into SQLite.
pub const SQLITE_RECORD_SQL: &'static str =
    "INSERT INTO crude_migrations (name, hash, down_sql) VALUES (?1, ?2, ?3)";

/// Inserts a tracking row without a reverting script into Postgres.
pub const POSTGRES_BASELINE_SQL: &'static str =
    "INSERT INTO crude.migrations (name, hash) VALUES ($1, $2)";

/// Inserts a tracking row without a reverting script into SQLite.
pub const SQLITE_BASELINE_SQL: &'static str =
    "INSERT INTO crude_migrations (name, hash) VALUES (?1, ?2)";

/// Deletes a tracking row of Postgres by name.
pub const POSTGRES_FORGET_SQL: &'static str = "DELETE FROM crude.migrations WHERE name = $1";

/// Deletes a tracking row of SQLite by name.
pub const SQLITE_FORGET_SQL: &'static str = "DELETE FROM crude_migrations WHERE name = ?1";

/// Sets the hash of a tracking row of Postgres.
pub const POSTGRES_REHASH_SQL: &'static str =
    "UPDATE crude.migrations SET hash = $1 WHERE name = $2";

/// Sets the hash of a tracking row of SQLite.
pub const SQLITE_REHASH_SQL: &'static str =
    "UPDATE crude_migrations SET hash = ?1 WHERE name = ?2";

/// Deletes every tracking row of Postgres but the one with the lowest id.
pub const POSTGRES_CLEAR_SQL: &'static str =
    "DELETE FROM crude.migrations WHERE id > (SELECT MIN(id) FROM crude.migrations);";

/// Deletes every tracking row of SQLite but the one with the lowest id.
pub const SQLITE_CLEAR_SQL: &'static str =
    "DELETE FROM crude_migrations WHERE id > (SELECT MIN(id) FROM crude_migrations);";

/// The SQL that creates the tracking table.
pub open spec fn init_text(backend: Backend) -> Seq<char> {
    match backend {
        Backend::Postgres => POSTGRES_INIT_UP_SQL@,
        Backend::Sqlite => SQLITE_INIT_UP_SQL@,
    }
}

/// The SQL that asks whether the tracking table exists.
pub open spec fn probe_text(backend: Backend) -> Seq<char> {
    match backend {
        Backend::Postgres => POSTGRES_PROBE_SQL@,
        Backend::Sqlite => SQLITE_PROBE_SQL@,
    }
}

/// The SQL that reads the tracking rows, oldest first.
pub open spec fn select_text(backend: Backend) -> Seq<char> {
    match backend {
        Backend::Postgres => POSTGRES_SELECT_SQL@,
        Backend::Sqlite => SQLITE_SELECT_SQL@,
    }
}

/// The SQL of a statement: the script itself for `Run`, and for the others
/// the text of the backend, with a place for each parameter.
pub open spec fn statement_text(backend: Backend, statement: StatementView) -> Seq<char> {
    match (statement, backend) {
        (StatementView::Run(script), _) => script,
        (StatementView::Record { .. }, Backend::Postgres) => POSTGRES_RECORD_SQL@,
        (StatementView::Record { .. }, Backend::Sqlite) => SQLITE_RECORD_SQL@,
        (StatementView::Baseline { .. }, Backend::Postgres) => POSTGRES_BASELINE_SQL@,
        (StatementView::Baseline { .. }, Backend::Sqlite) => SQLITE_BASELINE_SQL@,
        (StatementView::Forget { .. }, Backend::Postgres) => POSTGRES_FORGET_SQL@,
        (StatementView::Forget { .. }, Backend::Sqlite) => SQLITE_FORGET_SQL@,
        (StatementView::Rehash { .. }, Backend::Postgres) => POSTGRES_REHASH_SQL@,
        (StatementView::Rehash { .. }, Backend::Sqlite) => SQLITE_REHASH_SQL@,
        (StatementView::Clear, Backend::Postgres) => POSTGRES_CLEAR_SQL@,
        (StatementView::Clear, Backend::Sqlite) => SQLITE_CLEAR_SQL@,
    }
}

/// The values bound to the places of a statement, in the order of the
/// places; `None` binds the null value.
pub open spec fn statement_parameters(statement: StatementView) -> Seq<Option<Seq<char>>> {
    match statement {
        StatementView::Run(_) => seq![],
        StatementView::Record { name, hash, down_sql } => seq![Some(name), Some(hash), down_sql],
        StatementView::Baseline { name, hash } => seq![Some(name), Some(hash)],
        StatementView::Forget { name } => seq![Some(name)],
        StatementView::Rehash { name, hash } => seq![Some(hash), Some(name)],
        StatementView::Clear => seq![],
    }
}

/// The texts of a sequence of optional strings, in order.
pub open spec fn parameter_views(s: Seq<Option<String>>) -> Seq<Option<Seq<char>>> {
    s.map_values(|p: Option<String>| text_of(p))
}

impl Backend {
    /// The SQL that creates the tracking table.
    pub fn init_up_sql(self) -> (sql: &'static str)
        ensures
            sql@ == init_text(self),
    {
        match self {
            Backend::Postgres => POSTGRES_INIT_UP_SQL,
            Backend::Sqlite => SQLITE_INIT_UP_SQL,
        }
    }

    /// The SQL that asks whether the tracking table exists.
    pub fn probe_sql(self) -> (sql: &'static str)
        ensures
            sql@ == probe_text(self),
    {
        match self {
            Backend::Postgres => POSTGRES_PROBE_SQL,
            Backend::Sqlite => SQLITE_PROBE_SQL,
        }
    }

    /// The SQL that reads the tracking rows, oldest first.
    pub fn select_sql(self) -> (sql: &'static str)
        ensures
            sql@ == select_text(self),
    {
        match self {
            Backend::Postgres => POSTGRES_SELECT_SQL,
            Backend::Sqlite => SQLITE_SELECT_SQL,
        }
    }

    /// The SQL of `statement`.
    pub fn statement_sql<'a>(self, statement: &'a Statement) -> (sql: &'a str)
        ensures
            sql@ == statement_text(self, statement@),
    {
        match statement {
            Statement::Run(script) => script.as_str(),
            Statement::Record { .. } => match self {
                Backend::Postgres => POSTGRES_RECORD_SQL,
                Backend::Sqlite => SQLITE_RECORD_SQL,
            },
            Statement::Baseline { .. } => match self {
                Backend::Postgres => POSTGRES_BASELINE_SQL,
                Backend::Sqlite => SQLITE_BASELINE_SQL,
            },
            Statement::Forget { .. } => match self {
                Backend::Postgres => POSTGRES_FORGET_SQL,
                Backend::Sqlite => SQLITE_FORGET_SQL,
            },
            Statement::Rehash { .. } => match self {
                Backend::Postgres => POSTGRES_REHASH_SQL,
                Backend::Sqlite => SQLITE_REHASH_SQL,
            },
            Statement::Clear => match self {
                Backend::Postgres => POSTGRES_CLEAR_SQL,
                Backend::Sqlite => SQLITE_CLEAR_SQL,
            },
        }
    }
}

/// Whether the count that SQLite answers the probe with says that the
/// tracking table exists.
pub fn table_exists(count: i64) -> (r: bool)
    ensures
        r == (count > 0),
{
    count > 0
}

impl Statement {
    /// Whether the statement has places to bind values to; one without is
    /// run as a script.
    pub fn has_places(&self) -> (r: bool)
        ensures
            r == (statement_parameters(self@).len() > 0),
    {
        match self {
            Statement::Run(_) => false,
            Statement::Clear => false,
            _ => true,
        }
    }

    /// The values bound to the places of the statement, in the order of the
    /// places.
    pub fn parameters(&self) -> (values: Vec<Option<String>>)
        ensures
            parameter_views(values@) == statement_parameters(self@),
    {
        let mut values: Vec<Option<String>> = Vec::new();
        match self {
            Statement::Run(_) => {},
            Statement::Record { name, hash, down_sql } => {
                values.push(Some(name.clone()));
                values.push(Some(hash.clone()));
                values.push(clone_text(down_sql));
            },
            Statement::Baseline { name, hash } => {
                values.push(Some(name.clone()));
                values.push(Some(hash.clone()));
            },
            Statement::Forget { name } => {
                values.push(Some(name.clone()));
            },
            Statement::Rehash { name, hash } => {
                values.push(Some(hash.clone()));
                values.push(Some(name.clone()));
            },
            Statement::Clear => {},
        }
        assert(parameter_views(values@) =~= statement_parameters(self@));
        values
    }
}

} // verus!
