//! What is run against the database, and in which order: the statements of
//! each operation on the tracking table, grouped by the transactions that
//! wrap them.

use vstd::prelude::*;
use crate::marker::{opts_out, disables_transaction};
use crate::migration::{Migration, MigrationView, clone_text, text_of};

verus! {

/// One thing to run against the database.
#[derive(Debug, PartialEq, Eq)]
pub enum Statement {
    /// Run a script as it stands.
    Run(String),
    /// Insert the tracking row of a migration that was applied.
    Record { name: String, hash: String, down_sql: Option<String> },
    /// Insert a tracking row for a migration that is taken as applied.
    Baseline { name: String, hash: String },
    /// Delete the tracking row of the given name.
    Forget { name: String },
    /// Set the hash in the tracking row of the given name.
    Rehash { name: String, hash: String },
    /// Delete every tracking row but the oldest.
    Clear,
}

/// What a [`Statement`] holds, as plain text.
pub enum StatementView {
    Run(Seq<char>),
    Record { name: Seq<char>, hash: Seq<char>, down_sql: Option<Seq<char>> },
    Baseline { name: Seq<char>, hash: Seq<char> },
    Forget { name: Seq<char> },
    Rehash { name: Seq<char>, hash: Seq<char> },
    Clear,
}

impl View for Statement {
    type V = StatementView;

    open spec fn view(&self) -> StatementView {
        match self {
            Statement::Run(sql) => StatementView::Run(sql@),
            Statement::Record { name, hash, down_sql } => StatementView::Record {
                name: name@,
                hash: hash@,
                down_sql: text_of(*down_sql),
            },
            Statement::Baseline { name, hash } => StatementView::Baseline {
                name: name@,
                hash: hash@,
            },
            Statement::Forget { name } => StatementView::Forget { name: name@ },
            Statement::Rehash { name, hash } => StatementView::Rehash { name: name@, hash: hash@ },
            Statement::Clear => StatementView::Clear,
        }
    }
}

/// The views of a sequence of statements, in order.
pub open spec fn statement_views(s: Seq<Statement>) -> Seq<StatementView> {
    s.map_values(|e: Statement| e@)
}

/// Statements that run one after the other, inside one transaction where
/// `atomic` is set and each on its own where it is not.
#[derive(Debug, PartialEq, Eq)]
pub struct WorkUnit {
    pub atomic: bool,
    pub statements: Vec<Statement>,
}

/// What a [`WorkUnit`] holds, as plain values.
pub struct UnitView {
    pub atomic: bool,
    pub statements: Seq<StatementView>,
}

impl View for WorkUnit {
    type V = UnitView;

    open spec fn view(&self) -> UnitView {
        UnitView { atomic: self.atomic, statements: statement_views(self.statements@) }
    }
}

/// The views of a sequence of units, in order.
pub open spec fn unit_views(s: Seq<WorkUnit>) -> Seq<UnitView> {
    s.map_values(|e: WorkUnit| e@)
}

/// What applying `m` runs: its `up.sql` and then the insertion of its
/// tracking row, in one transaction unless the script opts out; then its
/// seed, if it has one, in a transaction of its own.
pub open spec fn up_script(m: MigrationView) -> Seq<UnitView> {
    let main = UnitView {
        atomic: !opts_out(m.up_sql->0),
        statements: seq![
            StatementView::Run(m.up_sql->0),
            StatementView::Record { name: m.compound_name, hash: m.hash, down_sql: m.down_sql },
        ],
    };
    match m.seed_sql {
        Some(seed) => seq![
            main,
            UnitView { atomic: true, statements: seq![StatementView::Run(seed)] },
        ],
        None => seq![main],
    }
}

/// What reverting `m` runs: its `down.sql` and then the deletion of its
/// tracking row, in one transaction unless the script opts out.
pub open spec fn down_script(m: MigrationView) -> Seq<UnitView> {
    seq![
        UnitView {
            atomic: !opts_out(m.down_sql->0),
            statements: seq![
                StatementView::Run(m.down_sql->0),
                StatementView::Forget { name: m.compound_name },
            ],
        },
    ]
}

/// One statement, run on its own.
pub open spec fn single(statement: StatementView) -> Seq<UnitView> {
    seq![UnitView { atomic: false, statements: seq![statement] }]
}

/// A unit that holds `statement` and nothing else, outside any transaction.
pub fn alone(statement: Statement) -> (units: Vec<WorkUnit>)
    ensures
        unit_views(units@) == single(statement@),
{
    let mut statements: Vec<Statement> = Vec::new();
    statements.push(statement);
    let mut units: Vec<WorkUnit> = Vec::new();
    units.push(WorkUnit { atomic: false, statements });
    assert(unit_views(units@) =~= single(statement@)) by {
        assert(units@[0]@.statements =~= seq![statement@]);
    }
    units
}

/// The units that apply `migration` and record it.
pub fn up_units(migration: &Migration) -> (units: Vec<WorkUnit>)
    requires
        migration.up_sql is Some,
    ensures
        unit_views(units@) == up_script(migration@),
{
    let mut units: Vec<WorkUnit> = Vec::new();
    if let Some(up_sql) = &migration.up_sql {
        let atomic = !disables_transaction(up_sql.as_str());
        let mut statements: Vec<Statement> = Vec::new();
        statements.push(Statement::Run(up_sql.clone()));
        statements.push(
            Statement::Record {
                name: migration.compound_name.clone(),
                hash: migration.hash.clone(),
                down_sql: clone_text(&migration.down_sql),
            },
        );
        let ghost main = UnitView {
            atomic,
            statements: seq![
                StatementView::Run(up_sql@),
                StatementView::Record {
                    name: migration@.compound_name,
                    hash: migration@.hash,
                    down_sql: migration@.down_sql,
                },
            ],
        };
        assert(statement_views(statements@) =~= main.statements);
        units.push(WorkUnit { atomic, statements });
        if let Some(seed) = &migration.seed_sql {
            let mut seeding: Vec<Statement> = Vec::new();
            seeding.push(Statement::Run(seed.clone()));
            assert(statement_views(seeding@) =~= seq![StatementView::Run(seed@)]);
            units.push(WorkUnit { atomic: true, statements: seeding });
            assert(unit_views(units@) =~= seq![
                main,
                UnitView { atomic: true, statements: seq![StatementView::Run(seed@)] },
            ]);
        } else {
            assert(unit_views(units@) =~= seq![main]);
        }
    }
    units
}

/// The units that revert `migration` and delete its record.
pub fn down_units(migration: &Migration) -> (units: Vec<WorkUnit>)
    requires
        migration.down_sql is Some,
    ensures
        unit_views(units@) == down_script(migration@),
{
    let mut units: Vec<WorkUnit> = Vec::new();
    if let Some(down_sql) = &migration.down_sql {
        let atomic = !disables_transaction(down_sql.as_str());
        let mut statements: Vec<Statement> = Vec::new();
        statements.push(Statement::Run(down_sql.clone()));
        statements.push(Statement::Forget { name: migration.compound_name.clone() });
        let ghost main = UnitView {
            atomic,
            statements: seq![
                StatementView::Run(down_sql@),
                StatementView::Forget { name: migration@.compound_name },
            ],
        };
        assert(statement_views(statements@) =~= main.statements);
        units.push(WorkUnit { atomic, statements });
        assert(unit_views(units@) =~= seq![main]);
    }
    units
}

/// The step to take next in a run that halts at the first failure: the one
/// after the `done` steps that were taken, unless the last of them failed or
/// none is left.
pub fn next_step<T>(steps: &[T], done: usize, failed: bool) -> (next: Option<&T>)
    ensures
        next == if !failed && done < steps@.len() {
            Some(&steps@[done as int])
        } else {
            None::<&T>
        },
{
    if !failed && done < steps.len() {
        Some(&steps[done])
    } else {
        None
    }
}

/// How a unit is closed once its statements were run or one of them failed.
#[derive(Debug, Clone, Copy, PartialEq, Eq, Structural)]
pub enum Close {
    /// Commit the transaction: every statement of an atomic unit ran.
    Commit,
    /// Roll the transaction back: a statement of an atomic unit failed.
    RollBack,
    /// Nothing to close: the statements ran on their own, and what ran stands.
    Leave,
}

/// How the unit is closed, where `failed` says whether one of its statements
/// failed.
pub fn closes(unit: &WorkUnit, failed: bool) -> (close: Close)
    ensures
        close == if !unit.atomic {
            Close::Leave
        } else if failed {
            Close::RollBack
        } else {
            Close::Commit
        },
{
    if !unit.atomic {
        Close::Leave
    } else if failed {
        Close::RollBack
    } else {
        Close::Commit
    }
}

} // verus!
