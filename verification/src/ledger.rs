//! The tracking table as a value: what each statement does to it, and a
//! table held in memory that does the same.

use vstd::prelude::*;
use crate::script::{
    Close, Statement, StatementView, WorkUnit, UnitView, statement_views, unit_views, next_step,
    closes,
};
use crate::migration::{clone_text, text_of};
use crate::text::{str_eq, texts};

verus! {

/// One row of the tracking table.
#[derive(Debug, PartialEq, Eq)]
pub struct TrackingRow {
    /// The compound name of the migration.
    pub name: String,
    /// The hash recorded when it was applied.
    pub hash: String,
    /// The script that reverts it, as recorded when it was applied.
    pub down_sql: Option<String>,
}

/// What a [`TrackingRow`] holds, as plain text.
pub struct RowView {
    pub name: Seq<char>,
    pub hash: Seq<char>,
    pub down_sql: Option<Seq<char>>,
}

impl View for TrackingRow {
    type V = RowView;

    open spec fn view(&self) -> RowView {
        RowView { name: self.name@, hash: self.hash@, down_sql: text_of(self.down_sql) }
    }
}

impl Clone for TrackingRow {
    fn clone(&self) -> (r: Self)
        ensures
            r == *self,
    {
        TrackingRow {
            name: self.name.clone(),
            hash: self.hash.clone(),
            down_sql: clone_text(&self.down_sql),
        }
    }
}

/// The views of a sequence of rows, in order.
pub open spec fn row_views(s: Seq<TrackingRow>) -> Seq<RowView> {
    s.map_values(|r: TrackingRow| r@)
}

/// Whether the table has a row of the given name.
pub open spec fn holds(table: Seq<RowView>, name: Seq<char>) -> bool {
    exists|i: int| 0 <= i < table.len() && (#[trigger] table[i]).name == name
}

/// The rows that do not have the given name.
pub open spec fn other_than(name: Seq<char>) -> spec_fn(RowView) -> bool {
    |r: RowView| r.name != name
}

/// The table without the rows of the given name.
pub open spec fn without(table: Seq<RowView>, name: Seq<char>) -> Seq<RowView> {
    table.filter(other_than(name))
}

/// The table with `hash` in the rows of the given name.
pub open spec fn rehashed(table: Seq<RowView>, name: Seq<char>, hash: Seq<char>) -> Seq<RowView> {
    table.map_values(
        |r: RowView|
            if r.name == name {
                RowView { hash, ..r }
            } else {
                r
            },
    )
}

/// The oldest row of the table alone.
pub open spec fn oldest(table: Seq<RowView>) -> Seq<RowView> {
    if table.len() > 1 {
        table.take(1)
    } else {
        table
    }
}

/// No script fails.
pub open spec fn unbroken() -> Seq<Seq<char>> {
    Seq::empty()
}

/// The table after one statement, or `None` where the statement fails: a
/// script fails where it is one of `broken`, the scripts that the database
/// refuses, and a name can be recorded once. A script that runs leaves the
/// table as it is.
pub open spec fn after_statement(
    table: Seq<RowView>,
    statement: StatementView,
    broken: Seq<Seq<char>>,
) -> Option<Seq<RowView>> {
    match statement {
        StatementView::Run(script) => if broken.contains(script) {
            None
        } else {
            Some(table)
        },
        StatementView::Record { name, hash, down_sql } => if holds(table, name) {
            None
        } else {
            Some(table.push(RowView { name, hash, down_sql }))
        },
        StatementView::Baseline { name, hash } => if holds(table, name) {
            None
        } else {
            Some(table.push(RowView { name, hash, down_sql: None }))
        },
        StatementView::Forget { name } => Some(without(table, name)),
        StatementView::Rehash { name, hash } => Some(rehashed(table, name, hash)),
        StatementView::Clear => Some(oldest(table)),
    }
}

/// Where running stopped: the table as it was left, and whether everything
/// ran.
pub struct Outcome {
    pub table: Seq<RowView>,
    pub done: bool,
}

/// The outcome of statements run one after the other until one fails.
pub open spec fn run_statements(
    table: Seq<RowView>,
    statements: Seq<StatementView>,
    broken: Seq<Seq<char>>,
) -> Outcome
    decreases statements.len(),
{
    if statements.len() == 0 {
        Outcome { table, done: true }
    } else {
        match after_statement(table, statements[0], broken) {
            Some(next) => run_statements(next, statements.drop_first(), broken),
            None => Outcome { table, done: false },
        }
    }
}

/// The outcome of one unit: where an atomic unit fails, the table is as it
/// was before the unit.
pub open spec fn run_unit(table: Seq<RowView>, unit: UnitView, broken: Seq<Seq<char>>) -> Outcome {
    let ran = run_statements(table, unit.statements, broken);
    if !ran.done && unit.atomic {
        Outcome { table, done: false }
    } else {
        ran
    }
}

/// The outcome of units run one after the other until one fails: what
/// follows the unit that fails is not run.
pub open spec fn run_units(
    table: Seq<RowView>,
    units: Seq<UnitView>,
    broken: Seq<Seq<char>>,
) -> Outcome
    decreases units.len(),
{
    if units.len() == 0 {
        Outcome { table, done: true }
    } else {
        let first = run_unit(table, units[0], broken);
        if first.done {
            run_units(first.table, units.drop_first(), broken)
        } else {
            first
        }
    }
}

/// A tracking table held in memory, oldest row first, with the scripts that
/// fail when they are run against it.
#[derive(Debug, PartialEq, Eq)]
pub struct Ledger {
    pub rows: Vec<TrackingRow>,
    /// The scripts that the database refuses.
    pub broken: Vec<String>,
}

impl View for Ledger {
    type V = Seq<RowView>;

    open spec fn view(&self) -> Seq<RowView> {
        row_views(self.rows@)
    }
}

/// A copy of `rows`.
fn copy_rows(rows: &Vec<TrackingRow>) -> (r: Vec<TrackingRow>)
    ensures
        r@ == rows@,
{
    let mut out: Vec<TrackingRow> = Vec::new();
    let mut i: usize = 0;
    while i < rows.len()
        invariant
            i <= rows@.len(),
            out@ == rows@.take(i as int),
        decreases rows@.len() - i,
    {
        out.push(rows[i].clone());
        assert(rows@.take(i + 1) =~= rows@.take(i as int).push(rows@[i as int]));
        i += 1;
    }
    assert(rows@.take(i as int) =~= rows@);
    out
}

impl Ledger {
    /// The scripts that fail when they are run, as plain text.
    pub open spec fn refused(&self) -> Seq<Seq<char>> {
        texts(self.broken@)
    }

    /// An empty table that refuses no script.
    pub fn new() -> (ledger: Self)
        ensures
            ledger@ == Seq::<RowView>::empty(),
            ledger.refused() == unbroken(),
    {
        let ledger = Ledger { rows: Vec::new(), broken: Vec::new() };
        assert(ledger@ =~= Seq::<RowView>::empty());
        assert(ledger.refused() =~= unbroken());
        ledger
    }

    /// Whether the table has a row of the given name.
    pub fn contains(&self, name: &str) -> (r: bool)
        ensures
            r == holds(self@, name@),
    {
        let mut i: usize = 0;
        while i < self.rows.len()
            invariant
                i <= self.rows@.len(),
                forall|k: int| 0 <= k < i ==> (#[trigger] self@[k]).name != name@,
            decreases self.rows@.len() - i,
        {
            if str_eq(self.rows[i].name.as_str(), name) {
                assert(self@[i as int].name == name@);
                return true;
            }
            i += 1;
        }
        false
    }

    /// Whether the script fails when it is run.
    pub fn refuses(&self, script: &str) -> (r: bool)
        ensures
            r == self.refused().contains(script@),
    {
        let mut i: usize = 0;
        while i < self.broken.len()
            invariant
                i <= self.broken@.len(),
                forall|k: int| 0 <= k < i ==> #[trigger] self.refused()[k] != script@,
            decreases self.broken@.len() - i,
        {
            if str_eq(self.broken[i].as_str(), script) {
                assert(self.refused()[i as int] == script@);
                return true;
            }
            i += 1;
        }
        false
    }

    /// Deletes the rows of the given name.
    fn forget(&mut self, name: &str)
        ensures
            final(self)@ == without(old(self)@, name@),
            final(self).broken == old(self).broken,
    {
        let ghost table = self@;
        let ghost keep = other_than(name@);
        let mut kept: Vec<TrackingRow> = Vec::new();
        let mut i: usize = 0;
        assert(row_views(kept@) =~= table.take(0).filter(keep)) by {
            reveal(Seq::filter);
        }
        while i < self.rows.len()
            invariant
                i <= self.rows@.len(),
                table == row_views(self.rows@),
                keep == other_than(name@),
                row_views(kept@) == table.take(i as int).filter(keep),
            decreases self.rows@.len() - i,
        {
            let row = &self.rows[i];
            let ghost before = row_views(kept@);
            proof {
                assert(table.take(i + 1) =~= table.take(i as int).push(table[i as int]));
                table.take(i as int).lemma_filter_push(table[i as int], keep);
            }
            if !str_eq(row.name.as_str(), name) {
                kept.push(row.clone());
                assert(row_views(kept@) =~= before.push(row@));
            }
            i += 1;
        }
        assert(table.take(i as int) =~= table);
        self.rows = kept;
    }

    /// Sets the hash in the rows of the given name.
    fn rehash(&mut self, name: &str, hash: &str)
        ensures
            final(self)@ == rehashed(old(self)@, name@, hash@),
            final(self).broken == old(self).broken,
    {
        let ghost table = self@;
        let mut out: Vec<TrackingRow> = Vec::new();
        let mut i: usize = 0;
        while i < self.rows.len()
            invariant
                i <= self.rows@.len(),
                table == row_views(self.rows@),
                out@.len() == i,
                forall|k: int|
                    0 <= k < i ==> (#[trigger] out@[k])@ == rehashed(table, name@, hash@)[k],
            decreases self.rows@.len() - i,
        {
            let row = &self.rows[i];
            if str_eq(row.name.as_str(), name) {
                out.push(
                    TrackingRow {
                        name: row.name.clone(),
                        hash: hash.to_owned(),
                        down_sql: clone_text(&row.down_sql),
                    },
                );
            } else {
                out.push(row.clone());
            }
            i += 1;
        }
        assert(row_views(out@) =~= rehashed(table, name@, hash@));
        self.rows = out;
    }

    /// Runs one statement. Where it fails the table is left as it was.
    pub fn apply(&mut self, statement: &Statement) -> (done: bool)
        ensures
            done == after_statement(old(self)@, statement@, old(self).refused()) is Some,
            final(self)@ == if done {
                after_statement(old(self)@, statement@, old(self).refused())->0
            } else {
                old(self)@
            },
            final(self).broken == old(self).broken,
    {
        let ghost table = self@;
        match statement {
            Statement::Run(script) => !self.refuses(script.as_str()),
            Statement::Record { name, hash, down_sql } => {
                if self.contains(name.as_str()) {
                    false
                } else {
                    let row = TrackingRow {
                        name: name.clone(),
                        hash: hash.clone(),
                        down_sql: clone_text(down_sql),
                    };
                    self.rows.push(row);
                    assert(self@ =~= table.push(row@));
                    true
                }
            },
            Statement::Baseline { name, hash } => {
                if self.contains(name.as_str()) {
                    false
                } else {
                    let row = TrackingRow { name: name.clone(), hash: hash.clone(), down_sql: None };
                    self.rows.push(row);
                    assert(self@ =~= table.push(row@));
                    true
                }
            },
            Statement::Forget { name } => {
                self.forget(name.as_str());
                true
            },
            Statement::Rehash { name, hash } => {
                self.rehash(name.as_str(), hash.as_str());
                true
            },
            Statement::Clear => {
                if self.rows.len() > 1 {
                    self.rows.truncate(1);
                    assert(self@ =~= table.take(1));
                }
                true
            },
        }
    }

    /// Runs the statements of one unit until one fails. Where an atomic unit
    /// fails, the table is put back as it was before the unit.
    #[verifier::loop_isolation(false)]
    pub fn run_unit(&mut self, unit: &WorkUnit) -> (done: bool)
        ensures
            done == run_unit(old(self)@, unit@, old(self).refused()).done,
            final(self)@ == run_unit(old(self)@, unit@, old(self).refused()).table,
            final(self).broken == old(self).broken,
    {
        let saved = copy_rows(&self.rows);
        let ghost start = self@;
        let ghost broken = self.refused();
        let ghost all = statement_views(unit.statements@);
        let count = unit.statements.len();
        let mut taken: usize = 0;
        let mut failed = false;
        assert(all.skip(0) =~= all);
        loop
            invariant
                taken <= unit.statements@.len() == count,
                self.broken == old(self).broken,
                run_statements(start, all, broken) == if failed {
                    Outcome { table: self@, done: false }
                } else {
                    run_statements(self@, all.skip(taken as int), broken)
                },
            decreases unit.statements@.len() - taken + if failed { 0int } else { 1int },
        {
            match next_step(unit.statements.as_slice(), taken, failed) {
                None => {
                    break ;
                },
                Some(statement) => {
                    assert(all.skip(taken as int)[0] == statement@);
                    assert(all.skip(taken as int).drop_first() =~= all.skip(taken + 1));
                    if self.apply(statement) {
                        taken += 1;
                    } else {
                        failed = true;
                    }
                },
            }
        }
        match closes(unit, failed) {
            Close::RollBack => {
                self.rows = saved;
            },
            _ => {},
        }
        !failed
    }

    /// Runs the units one after the other until one fails.
    #[verifier::loop_isolation(false)]
    pub fn run(&mut self, units: &Vec<WorkUnit>) -> (done: bool)
        ensures
            done == run_units(old(self)@, unit_views(units@), old(self).refused()).done,
            final(self)@ == run_units(old(self)@, unit_views(units@), old(self).refused()).table,
            final(self).broken == old(self).broken,
    {
        let ghost start = self@;
        let ghost broken = self.refused();
        let ghost all = unit_views(units@);
        let count = units.len();
        let mut taken: usize = 0;
        let mut failed = false;
        assert(all.skip(0) =~= all);
        loop
            invariant
                taken <= units@.len() == count,
                self.broken == old(self).broken,
                run_units(start, all, broken) == if failed {
                    Outcome { table: self@, done: false }
                } else {
                    run_units(self@, all.skip(taken as int), broken)
                },
            decreases units@.len() - taken + if failed { 0int } else { 1int },
        {
            match next_step(units.as_slice(), taken, failed) {
                None => {
                    break ;
                },
                Some(unit) => {
                    assert(all.skip(taken as int)[0] == unit@);
                    assert(all.skip(taken as int).drop_first() =~= all.skip(taken + 1));
                    if self.run_unit(unit) {
                        taken += 1;
                    } else {
                        failed = true;
                    }
                },
            }
        }
        !failed
    }
}

} // verus!
