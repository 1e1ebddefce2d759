//! The adapters for the two backends: what each runs for the operations on
//! the tracking table, and how the rows it reads become records.

use vstd::prelude::*;
use vstd::string::*;
use crate::ledger::{TrackingRow, RowView, row_views};
use crate::migration::{Migration, MigrationView, views, remote_record};
use crate::naming::{NameError, NameErrorView, datetime_rejection, timestamp_format, timestamp_part};
use crate::script::{
    Statement, StatementView, WorkUnit, unit_views, up_script, down_script, single, up_units,
    down_units, alone,
};
use crate::dump::{Command, DumpKind, dump_arguments, dump_command, dump_program};
use crate::sql::{Backend, init_text};
use crate::text::texts;

verus! {

/// The record that a tracking row gives, or why it gives none.
pub open spec fn record_of(row: RowView) -> Result<MigrationView, NameErrorView> {
    remote_record(
        row.name,
        row.hash,
        row.down_sql,
        datetime_rejection(timestamp_part(row.name), timestamp_format()),
    )
}

/// The records that the tracking rows give, in order, or why the first row
/// that gives none does not.
pub open spec fn records_of(rows: Seq<RowView>) -> Result<Seq<MigrationView>, NameErrorView>
    decreases rows.len(),
{
    if rows.len() == 0 {
        Ok(Seq::empty())
    } else {
        match record_of(rows[0]) {
            Err(e) => Err(e),
            Ok(first) => match records_of(rows.drop_first()) {
                Err(e) => Err(e),
                Ok(rest) => Ok(seq![first] + rest),
            },
        }
    }
}

/// What a call that read records returned, as plain text.
pub open spec fn read(res: Result<Vec<Migration>, NameError>) -> Result<
    Seq<MigrationView>,
    NameErrorView,
> {
    match res {
        Ok(list) => Ok(views(list@)),
        Err(e) => Err(e@),
    }
}

/// `rest` with `done` in front of what it gives.
pub open spec fn continued(
    done: Seq<MigrationView>,
    rest: Result<Seq<MigrationView>, NameErrorView>,
) -> Result<Seq<MigrationView>, NameErrorView> {
    match rest {
        Ok(more) => Ok(done + more),
        Err(e) => Err(e),
    }
}

/// The records that the rows of the tracking table give, oldest first.
pub fn records_from_rows(rows: &Vec<TrackingRow>) -> (res: Result<Vec<Migration>, NameError>)
    ensures
        read(res) == records_of(row_views(rows@)),
{
    let ghost all = row_views(rows@);
    let mut list: Vec<Migration> = Vec::new();
    let mut i: usize = 0;
    assert(all.skip(0) =~= all);
    assert(views(list@) + records_of(all)->Ok_0 =~= records_of(all)->Ok_0);
    while i < rows.len()
        invariant
            i <= rows@.len(),
            all == row_views(rows@),
            records_of(all) == continued(views(list@), records_of(all.skip(i as int))),
        decreases rows@.len() - i,
    {
        let row = &rows[i];
        let ghost done = views(list@);
        let ghost tail = all.skip(i as int);
        assert(tail[0] == row@);
        assert(tail.drop_first() =~= all.skip(i + 1));
        match Migration::from_db(row.name.clone(), row.hash.clone(), row.down_sql.clone()) {
            Err(e) => {
                return Err(e);
            },
            Ok(m) => {
                list.push(m);
                proof {
                    assert(views(list@) =~= done.push(m@));
                    if let Ok(more) = records_of(all.skip(i + 1)) {
                        assert(done + (seq![m@] + more) =~= done.push(m@) + more);
                    }
                }
            },
        }
        i += 1;
    }
    assert(views(list@) + Seq::<MigrationView>::empty() =~= views(list@));
    Ok(list)
}

/// What an adapter runs for each operation on the tracking table. Nothing
/// here touches a database: the caller runs what it is handed, unit by unit,
/// and stops at the first failure.
pub trait DatabaseAdapter {
    /// The backend that the adapter speaks to.
    spec fn backend(&self) -> Backend;

    /// The backend that the adapter speaks to.
    fn dialect(&self) -> (backend: Backend)
        ensures
            backend == self.backend(),
    ;

    /// The SQL that creates the tracking table.
    fn init_up_sql(&self) -> (sql: &'static str)
        ensures
            sql@ == init_text(self.backend()),
    ;

    /// The applied migrations, from the rows of the tracking table in the
    /// order of their ids.
    fn load_migrations(&self, rows: &Vec<TrackingRow>) -> (res: Result<Vec<Migration>, NameError>)
        ensures
            read(res) == records_of(row_views(rows@)),
    ;

    /// What applies a migration and records it.
    fn run_up_migration(&self, migration: &Migration) -> (units: Vec<WorkUnit>)
        requires
            migration.up_sql is Some,
        ensures
            unit_views(units@) == up_script(migration@),
    ;

    /// What reverts a migration and deletes its record.
    fn run_down_migration(&self, migration: &Migration) -> (units: Vec<WorkUnit>)
        requires
            migration.down_sql is Some,
        ensures
            unit_views(units@) == down_script(migration@),
    ;

    /// What sets the hash of a recorded migration.
    fn update_migration_hash(&self, name: &str, hash: &str) -> (units: Vec<WorkUnit>)
        ensures
            unit_views(units@) == single(StatementView::Rehash { name: name@, hash: hash@ }),
    ;

    /// What deletes every record but the oldest.
    fn clear_migrations(&self) -> (units: Vec<WorkUnit>)
        ensures
            unit_views(units@) == single(StatementView::Clear),
    ;

    /// What records a migration as applied without running it.
    fn record_baseline(&self, name: &str, hash: &str) -> (units: Vec<WorkUnit>)
        ensures
            unit_views(units@) == single(StatementView::Baseline { name: name@, hash: hash@ }),
    ;

    /// The command whose output is the schema of the database at `url`.
    fn dump_schema(&self, url: &str) -> (command: Command)
        ensures
            command.program@ == dump_program(self.backend()),
            texts(command.arguments@) == dump_arguments(self.backend(), DumpKind::Schema, url@),
    ;
}

/// The adapter for Postgres.
#[derive(Debug, Clone, Copy)]
pub struct PostgresAdapter {}

/// The adapter for SQLite.
#[derive(Debug, Clone, Copy)]
pub struct SqliteAdapter {}

impl PostgresAdapter {
    /// An adapter for Postgres.
    pub fn new() -> (adapter: Self)
        ensures
            adapter.backend() == Backend::Postgres,
    {
        PostgresAdapter {  }
    }
}

impl SqliteAdapter {
    /// An adapter for SQLite.
    pub fn new() -> (adapter: Self)
        ensures
            adapter.backend() == Backend::Sqlite,
    {
        SqliteAdapter {  }
    }
}

impl DatabaseAdapter for PostgresAdapter {
    open spec fn backend(&self) -> Backend {
        Backend::Postgres
    }

    fn dialect(&self) -> (backend: Backend) {
        Backend::Postgres
    }

    fn init_up_sql(&self) -> (sql: &'static str) {
        Backend::Postgres.init_up_sql()
    }

    fn load_migrations(&self, rows: &Vec<TrackingRow>) -> (res: Result<Vec<Migration>, NameError>) {
        records_from_rows(rows)
    }

    fn run_up_migration(&self, migration: &Migration) -> (units: Vec<WorkUnit>) {
        up_units(migration)
    }

    fn run_down_migration(&self, migration: &Migration) -> (units: Vec<WorkUnit>) {
        down_units(migration)
    }

    fn update_migration_hash(&self, name: &str, hash: &str) -> (units: Vec<WorkUnit>) {
        alone(Statement::Rehash { name: name.to_owned(), hash: hash.to_owned() })
    }

    fn clear_migrations(&self) -> (units: Vec<WorkUnit>) {
        alone(Statement::Clear)
    }

    fn record_baseline(&self, name: &str, hash: &str) -> (units: Vec<WorkUnit>) {
        alone(Statement::Baseline { name: name.to_owned(), hash: hash.to_owned() })
    }

    fn dump_schema(&self, url: &str) -> (command: Command) {
        dump_command(Backend::Postgres, DumpKind::Schema, url)
    }
}

impl DatabaseAdapter for SqliteAdapter {
    open spec fn backend(&self) -> Backend {
        Backend::Sqlite
    }

    fn dialect(&self) -> (backend: Backend) {
        Backend::Sqlite
    }

    fn init_up_sql(&self) -> (sql: &'static str) {
        Backend::Sqlite.init_up_sql()
    }

    fn load_migrations(&self, rows: &Vec<TrackingRow>) -> (res: Result<Vec<Migration>, NameError>) {
        records_from_rows(rows)
    }

    fn run_up_migration(&self, migration: &Migration) -> (units: Vec<WorkUnit>) {
        up_units(migration)
    }

    fn run_down_migration(&self, migration: &Migration) -> (units: Vec<WorkUnit>) {
        down_units(migration)
    }

    fn update_migration_hash(&self, name: &str, hash: &str) -> (units: Vec<WorkUnit>) {
        alone(Statement::Rehash { name: name.to_owned(), hash: hash.to_owned() })
    }

    fn clear_migrations(&self) -> (units: Vec<WorkUnit>) {
        alone(Statement::Clear)
    }

    fn record_baseline(&self, name: &str, hash: &str) -> (units: Vec<WorkUnit>) {
        alone(Statement::Baseline { name: name.to_owned(), hash: hash.to_owned() })
    }

    fn dump_schema(&self, url: &str) -> (command: Command) {
        dump_command(Backend::Sqlite, DumpKind::Schema, url)
    }
}

} // verus!
