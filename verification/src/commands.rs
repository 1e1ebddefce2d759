//! The commands: what each decides from its flags and from what was read.

use vstd::prelude::*;
use vstd::string::*;
use crate::db::DatabaseAdapter;
use crate::digest::{content_hash, hash_of};
use crate::dump::{Command, DumpKind, dump_arguments, dump_program};
use crate::error::{PlanError, PlanErrorView};
use crate::executor::{Action, ActionView, action_views, plan_actions};
use crate::migration::{Migration, MigrationView, text_of, views};
use crate::plan::{MigrationState, PlanOptions, StatusView, StepView, status_views};
use crate::planner::Planner;
use crate::reconcile::{down_plan, fix_plan, redo_plan, status_walk, up_plan};
use crate::paint::{cyan, cyan_text};
use crate::render::{print_status, status_lines};
use crate::laws::names;
use crate::text::{joined, str_eq, texts};

verus! {

/// Why a command was refused.
#[derive(Debug, PartialEq, Eq)]
pub enum CommandError {
    /// No database URL was given.
    MissingUrl,
    /// The name of a new migration is one of the reserved names.
    ReservedName,
    /// No local migration has the given name.
    UnknownMigration(String),
    /// A rollup was asked for while not every migration is applied.
    NotClean,
}

impl CommandError {
    /// The message that reports the error.
    pub fn message(&self) -> (text: String)
        ensures
            text@ == match self {
                CommandError::MissingUrl =>
                    "the following required arguments were not provided:\n  --url <URL>"@,
                CommandError::ReservedName => "migration name cannot be 'rollup' or 'init'"@,
                CommandError::UnknownMigration(name) => "unable to find local migration "@
                    + name@,
                CommandError::NotClean =>
                    "cannot rollup when there are pending, variant, or divergent migrations"@,
            },
    {
        match self {
            CommandError::MissingUrl =>
                "the following required arguments were not provided:\n  --url <URL>".to_owned(),
            CommandError::ReservedName => "migration name cannot be 'rollup' or 'init'".to_owned(),
            CommandError::UnknownMigration(name) => joined(
                "unable to find local migration ",
                name.as_str(),
            ),
            CommandError::NotClean =>
                "cannot rollup when there are pending, variant, or divergent migrations".to_owned(),
        }
    }
}

/// The options that every command takes.
#[derive(Debug, PartialEq, Eq)]
pub struct Options {
    /// The URL of the database.
    pub url: Option<String>,
    /// The directory that holds the migrations.
    pub migrations_dir: Option<String>,
    /// The file that the schema is dumped to.
    pub schema: Option<String>,
}

impl Options {
    /// The URL of the database, or an error where none was given.
    pub fn get_url(&self) -> (res: Result<&str, CommandError>)
        ensures
            match res {
                Ok(url) => self.url matches Some(given) && url@ == given@,
                Err(e) => self.url is None && e == CommandError::MissingUrl,
            },
    {
        match &self.url {
            Some(url) => Ok(url.as_str()),
            None => Err(CommandError::MissingUrl),
        }
    }
}

/// A schema to dump: the command whose output is the schema, and the file
/// that the output is written to.
#[derive(Debug, PartialEq, Eq)]
pub struct SchemaDump {
    pub command: Command,
    pub path: String,
}

/// What dumps the schema once a command has run: nothing where no file was
/// asked for; else the command of the adapter for the database URL, which
/// then has to be given.
pub fn maybe_dump_schema<A: DatabaseAdapter>(db: &A, opts: &Options) -> (res: Result<
    Option<SchemaDump>,
    CommandError,
>)
    ensures
        match res {
            Ok(None) => opts.schema is None,
            Ok(Some(dump)) => {
                &&& opts.schema matches Some(path) && dump.path@ == path@
                &&& opts.url matches Some(url) && dump.command.program@ == dump_program(
                    db.backend(),
                ) && texts(dump.command.arguments@) == dump_arguments(
                    db.backend(),
                    DumpKind::Schema,
                    url@,
                )
            },
            Err(e) => opts.schema is Some && opts.url is None && e == CommandError::MissingUrl,
        },
{
    match &opts.schema {
        None => Ok(None),
        Some(path) => match opts.get_url() {
            Ok(url) => Ok(Some(SchemaDump { command: db.dump_schema(url), path: path.clone() })),
            Err(e) => Err(e),
        },
    }
}

/// What a call that planned and listed its actions returned, as plain values.
pub open spec fn acted(res: Result<Vec<Action>, PlanError>) -> Result<
    Seq<ActionView>,
    PlanErrorView,
> {
    match res {
        Ok(actions) => Ok(action_views(actions@)),
        Err(e) => Err(e@),
    }
}

/// The actions that carry out a plan, where there is one.
pub open spec fn carried(
    plan: Result<Seq<StepView>, PlanErrorView>,
    options: PlanOptions,
) -> Result<Seq<ActionView>, PlanErrorView> {
    match plan {
        Ok(steps) => Ok(plan_actions(steps, options)),
        Err(e) => Err(e),
    }
}

/// The limit that the flags of a command ask for: none where everything is
/// asked for.
pub open spec fn limit(all: bool, number: usize) -> Option<usize> {
    if all {
        None
    } else {
        Some(number)
    }
}

/// The compound name of the migration that creates the tracking table.
pub const INIT_MIGRATION: &'static str = "20000101000000_init";

/// Initialise the directory of the migrations and the database.
#[derive(Debug, Clone, Copy, PartialEq, Eq, Structural)]
pub struct Init {}

impl Init {
    /// What applies the migration that creates the tracking table: the first
    /// pending migration, without its seed.
    pub fn run(&self, planner: Planner) -> (res: Result<Vec<Action>, PlanError>)
        ensures
            acted(res) == carried(
                up_plan(planner@.local, planner@.remote, planner@.count),
                PlanOptions { seed: false, plan_only: false },
            ),
    {
        match planner.up() {
            Ok(plan) => Ok(plan.run(&PlanOptions { seed: false, plan_only: false })),
            Err(e) => Err(e),
        }
    }
}

/// Create a new migration.
#[derive(Debug, PartialEq, Eq)]
pub struct New {
    /// The name of the migration.
    pub name: String,
}

/// Whether `name` is reserved.
pub open spec fn is_reserved(name: Seq<char>) -> bool {
    name == "rollup"@ || name == "init"@
}

/// The compound name made of a timestamp and a short name.
pub open spec fn compound(timestamp: Seq<char>, name: Seq<char>) -> Seq<char> {
    timestamp + "_"@ + name
}

/// The compound name made of a timestamp and a short name.
fn compound_name(timestamp: &str, name: &str) -> (out: String)
    ensures
        out@ == compound(timestamp@, name@),
{
    let mut out = joined(timestamp, "_");
    out.append(name);
    out
}

impl New {
    /// The compound name of the migration to create, from the current time
    /// as fourteen digits. A reserved name is refused.
    pub fn run(&self, timestamp: &str) -> (res: Result<String, CommandError>)
        ensures
            match res {
                Ok(name) => !is_reserved(self.name@) && name@ == compound(timestamp@, self.name@),
                Err(e) => is_reserved(self.name@) && e == CommandError::ReservedName,
            },
    {
        if str_eq(self.name.as_str(), "rollup") || str_eq(self.name.as_str(), "init") {
            return Err(CommandError::ReservedName);
        }
        Ok(compound_name(timestamp, self.name.as_str()))
    }
}

/// List all migrations and their status.
#[derive(Debug, Clone, Copy, PartialEq, Eq, Structural)]
pub struct Status {}

impl Status {
    /// The lines that report the status of every migration.
    pub fn run(&self, planner: &Planner) -> (res: Result<String, PlanError>)
        ensures
            res matches Ok(text) && text@ == status_lines(
                status_walk(planner@.local, planner@.remote),
                status_walk(planner@.local, planner@.remote).len(),
            ),
    {
        match planner.status() {
            Ok(list) => {
                assert(status_views(list@).len() == list@.len());
                Ok(print_status(list.as_slice()))
            },
            Err(e) => Err(e),
        }
    }
}

/// Apply pending migrations.
#[derive(Debug, Clone, Copy, PartialEq, Eq, Structural)]
pub struct Up {
    /// The number of migrations to apply; all where none is given.
    pub number: Option<usize>,
    pub plan_options: PlanOptions,
}

impl Up {
    /// What applies the pending migrations.
    pub fn run(&self, planner: Planner) -> (res: Result<Vec<Action>, PlanError>)
        ensures
            acted(res) == carried(
                up_plan(planner@.local, planner@.remote, self.number),
                self.plan_options,
            ),
    {
        match planner.count(self.number).up() {
            Ok(plan) => Ok(plan.run(&self.plan_options)),
            Err(e) => Err(e),
        }
    }
}

/// Roll back the most recent migrations.
#[derive(Debug, Clone, Copy, PartialEq, Eq, Structural)]
pub struct Down {
    /// The number of migrations to roll back.
    pub number: usize,
    /// Roll back all applied migrations.
    pub all: bool,
    /// Only show the plan.
    pub plan_only: bool,
    /// Roll back also what does not exist locally.
    pub ignore_divergent: bool,
    /// Plan also for migrations without a `down.sql`.
    pub ignore_unreversible: bool,
}

impl Down {
    /// What rolls back the most recent migrations.
    pub fn run(&self, planner: Planner) -> (res: Result<Vec<Action>, PlanError>)
        ensures
            acted(res) == carried(
                down_plan(
                    planner@.local,
                    planner@.remote,
                    limit(self.all, self.number),
                    self.ignore_divergent,
                    self.ignore_unreversible,
                ),
                PlanOptions { seed: false, plan_only: self.plan_only },
            ),
    {
        let count = if self.all {
            None
        } else {
            Some(self.number)
        };
        let planner = planner.set_ignore_divergent(self.ignore_divergent).set_ignore_unreversible(
            self.ignore_unreversible,
        ).count(count);
        match planner.down() {
            Ok(plan) => Ok(plan.run(&PlanOptions { seed: false, plan_only: self.plan_only })),
            Err(e) => Err(e),
        }
    }
}

/// Roll back the most recent migrations and apply them again.
#[derive(Debug, Clone, Copy, PartialEq, Eq, Structural)]
pub struct Redo {
    /// The number of migrations to redo.
    pub number: usize,
    /// Redo all applied migrations.
    pub all: bool,
    pub plan_options: PlanOptions,
    /// Consider also what does not exist locally.
    pub ignore_divergent: bool,
    /// Pass over migrations without a `down.sql`.
    pub ignore_unreversible: bool,
}

impl Redo {
    /// What rolls back the most recent migrations and applies them again.
    pub fn run(&self, planner: Planner) -> (res: Result<Vec<Action>, PlanError>)
        ensures
            acted(res) == carried(
                redo_plan(
                    planner@.local,
                    planner@.remote,
                    limit(self.all, self.number),
                    self.ignore_divergent,
                    self.ignore_unreversible,
                ),
                self.plan_options,
            ),
    {
        let count = if self.all {
            None
        } else {
            Some(self.number)
        };
        let planner = planner.set_ignore_divergent(self.ignore_divergent).set_ignore_unreversible(
            self.ignore_unreversible,
        ).count(count);
        match planner.redo() {
            Ok(plan) => Ok(plan.run(&self.plan_options)),
            Err(e) => Err(e),
        }
    }
}

/// Roll back what differs from the local set, then apply what is pending.
#[derive(Debug, Clone, Copy, PartialEq, Eq, Structural)]
pub struct Fix {
    pub plan_options: PlanOptions,
}

impl Fix {
    /// What brings the database to the local set.
    pub fn run(&self, planner: Planner) -> (res: Result<Vec<Action>, PlanError>)
        ensures
            acted(res) == carried(fix_plan(planner@.local, planner@.remote), self.plan_options),
    {
        match planner.fix() {
            Ok(plan) => Ok(plan.run(&self.plan_options)),
            Err(e) => Err(e),
        }
    }
}

/// The first migration of `s` that goes by `name`, as compound name or as
/// short name.
pub open spec fn first_called(s: Seq<MigrationView>, name: Seq<char>) -> Option<MigrationView>
    decreases s.len(),
{
    if s.len() == 0 {
        None
    } else if s[0].compound_name == name || s[0].name == name {
        Some(s[0])
    } else {
        first_called(s.drop_first(), name)
    }
}

/// The first migration of `local` that goes by `name`.
fn find_called<'a>(local: &'a [Migration], name: &str) -> (res: Option<&'a Migration>)
    ensures
        res matches Some(m) ==> first_called(views(local@), name@) == Some(m@),
        res is None ==> first_called(views(local@), name@) is None,
{
    let ghost all = views(local@);
    let mut i: usize = 0;
    assert(all.skip(0) =~= all);
    while i < local.len()
        invariant
            i <= local@.len(),
            all == views(local@),
            first_called(all, name@) == first_called(all.skip(i as int), name@),
        decreases local@.len() - i,
    {
        let m = &local[i];
        assert(all.skip(i as int)[0] == m@);
        if str_eq(m.compound_name.as_str(), name) || str_eq(m.name.as_str(), name) {
            return Some(m);
        }
        assert(all.skip(i as int).drop_first() =~= all.skip(i + 1));
        i += 1;
    }
    None
}

/// Record the hash that a migration has now.
#[derive(Debug, PartialEq, Eq)]
pub struct Repair {
    /// The name of the migration.
    pub name: String,
}

impl Repair {
    /// The local migration whose hash is to be recorded: the first that goes
    /// by the name.
    pub fn run(&self, local: &[Migration]) -> (res: Result<Migration, CommandError>)
        ensures
            match res {
                Ok(m) => first_called(views(local@), self.name@) == Some(m@),
                Err(e) => first_called(views(local@), self.name@) is None && (e
                    matches CommandError::UnknownMigration(name) && name@ == self.name@),
            },
    {
        match find_called(local, self.name.as_str()) {
            Some(m) => Ok(m.clone()),
            None => Err(CommandError::UnknownMigration(self.name.clone())),
        }
    }
}

/// Give a migration the current time as its timestamp.
#[derive(Debug, PartialEq, Eq)]
pub struct Retime {
    /// The name of the migration.
    pub name: String,
}

impl Retime {
    /// The compound name that the migration has and the one it is to have:
    /// the current time as fourteen digits, and its short name.
    pub fn run(&self, local: &[Migration], timestamp: &str) -> (res: Result<
        (String, String),
        CommandError,
    >)
        ensures
            match res {
                Ok((from, to)) => first_called(views(local@), self.name@) matches Some(m)
                    && from@ == m.compound_name && to@ == compound(timestamp@, m.name),
                Err(e) => first_called(views(local@), self.name@) is None && (e
                    matches CommandError::UnknownMigration(name) && name@ == self.name@),
            },
    {
        match find_called(local, self.name.as_str()) {
            Some(m) => Ok((m.compound_name.clone(), compound_name(timestamp, m.name.as_str()))),
            None => Err(CommandError::UnknownMigration(self.name.clone())),
        }
    }
}

/// Whether every entry is applied.
pub open spec fn all_applied(entries: Seq<StatusView>) -> bool {
    forall|i: int| 0 <= i < entries.len() ==> (#[trigger] entries[i]).state == MigrationState::Applied
}

/// The migrations that a rollup removes: all but the initial one.
pub open spec fn rolled_up() -> spec_fn(MigrationView) -> bool {
    |m: MigrationView| m.name != "init"@
}

/// What removes one migration that was rolled up: a line that says so, then
/// the removal of its directory.
pub open spec fn removal(m: MigrationView) -> Seq<ActionView> {
    seq![
        ActionView::Show(cyan_text("Rolled up"@) + " "@ + m.compound_name + "\n"@),
        ActionView::Remove { compound_name: m.compound_name },
    ]
}

/// What removes the first `upto` of `s`.
pub open spec fn removals_of(s: Seq<MigrationView>, upto: nat) -> Seq<ActionView>
    decreases upto,
{
    if upto == 0 {
        Seq::empty()
    } else {
        removals_of(s, (upto - 1) as nat) + removal(s[upto - 1])
    }
}

/// What a rollup does once the schema and the data were dumped, in order:
/// the directory of the baseline is written, every record but the oldest is
/// cleared, the baseline is recorded, and only then the directories of the
/// migrations that it replaces are removed, so that nothing is lost where a
/// step fails.
pub open spec fn rollup_actions(
    local: Seq<MigrationView>,
    timestamp: Seq<char>,
    up_sql: Seq<char>,
    seed_sql: Seq<char>,
) -> Seq<ActionView> {
    let name = compound(timestamp, "rollup"@);
    let replaced = local.filter(rolled_up());
    seq![
        ActionView::Create { compound_name: name, up_sql: Some(up_sql), seed_sql: Some(seed_sql) },
        ActionView::Clear,
        ActionView::Baseline { name, hash: hash_of(up_sql) },
    ] + removals_of(replaced, replaced.len())
}

/// What removes the first migrations does not depend on those after them.
proof fn lemma_removals_prefix(a: Seq<MigrationView>, b: Seq<MigrationView>, upto: nat)
    requires
        upto <= a.len() <= b.len(),
        forall|k: int| 0 <= k < a.len() ==> a[k] == b[k],
    ensures
        removals_of(a, upto) == removals_of(b, upto),
    decreases upto,
{
    if upto > 0 {
        lemma_removals_prefix(a, b, (upto - 1) as nat);
    }
}

/// Squash all applied migrations into a single baseline.
#[derive(Debug, Clone, Copy, PartialEq, Eq, Structural)]
pub struct Rollup {}

impl Rollup {
    /// Refuses a rollup unless every migration is applied.
    pub fn run(&self, statuses: &[crate::plan::Status]) -> (res: Result<(), CommandError>)
        ensures
            res is Ok <==> all_applied(status_views(statuses@)),
            res matches Err(e) ==> e == CommandError::NotClean,
    {
        let mut i: usize = 0;
        while i < statuses.len()
            invariant
                i <= statuses@.len(),
                forall|k: int|
                    0 <= k < i ==> (#[trigger] status_views(statuses@)[k]).state
                        == MigrationState::Applied,
            decreases statuses@.len() - i,
        {
            match statuses[i].state {
                MigrationState::Applied => {},
                _ => {
                    assert(status_views(statuses@)[i as int].state != MigrationState::Applied);
                    return Err(CommandError::NotClean);
                },
            }
            i += 1;
        }
        Ok(())
    }

    /// The compound name and the hash of the baseline: the current time as
    /// fourteen digits with the name `rollup`, and the content hash of the
    /// schema that was dumped.
    pub fn baseline(&self, timestamp: &str, up_sql: &str) -> (res: (String, String))
        ensures
            res.0@ == compound(timestamp@, "rollup"@),
            res.1@ == hash_of(up_sql@),
    {
        (compound_name(timestamp, "rollup"), content_hash(up_sql))
    }

    /// What the rollup does, in order, once the schema was dumped into
    /// `up_sql` and the data into `seed_sql`: write the baseline, clear the
    /// records, record the baseline, remove what it replaces.
    pub fn actions(
        &self,
        local: &[Migration],
        timestamp: &str,
        up_sql: &str,
        seed_sql: &str,
    ) -> (actions: Vec<Action>)
        ensures
            action_views(actions@) == rollup_actions(views(local@), timestamp@, up_sql@, seed_sql@),
    {
        let ghost all = views(local@);
        let ghost keep = rolled_up();
        let (name, hash) = self.baseline(timestamp, up_sql);
        let mut actions: Vec<Action> = Vec::new();
        actions.push(
            Action::Create {
                compound_name: name.clone(),
                up_sql: Some(up_sql.to_owned()),
                seed_sql: Some(seed_sql.to_owned()),
            },
        );
        actions.push(Action::Clear);
        actions.push(Action::Baseline { name, hash });
        let ghost head = action_views(actions@);
        assert(head =~= seq![
            ActionView::Create {
                compound_name: compound(timestamp@, "rollup"@),
                up_sql: Some(up_sql@),
                seed_sql: Some(seed_sql@),
            },
            ActionView::Clear,
            ActionView::Baseline { name: compound(timestamp@, "rollup"@), hash: hash_of(up_sql@) },
        ]);
        let mut replaced: Ghost<Seq<MigrationView>> = Ghost(Seq::empty());
        let mut i: usize = 0;
        assert(replaced@ =~= all.take(0).filter(keep)) by {
            reveal(Seq::filter);
        }
        assert(action_views(actions@) =~= head + removals_of(replaced@, 0));
        while i < local.len()
            invariant
                i <= local@.len(),
                all == views(local@),
                keep == rolled_up(),
                replaced@ == all.take(i as int).filter(keep),
                action_views(actions@) == head + removals_of(replaced@, replaced@.len()),
            decreases local@.len() - i,
        {
            let m = &local[i];
            proof {
                assert(all.take(i + 1) =~= all.take(i as int).push(m@));
                all.take(i as int).lemma_filter_push(m@, keep);
            }
            if !str_eq(m.name.as_str(), "init") {
                let ghost before = action_views(actions@);
                let ghost earlier = replaced@;
                let mut line = cyan("Rolled up");
                line.append(" ");
                line.append(m.compound_name.as_str());
                line.append("\n");
                actions.push(Action::Show(line));
                actions.push(Action::Remove { compound_name: m.compound_name.clone() });
                proof {
                    replaced@ = earlier.push(m@);
                    assert(action_views(actions@) =~= before + removal(m@));
                    lemma_removals_prefix(earlier, replaced@, earlier.len());
                    assert(before + removal(m@) =~= head + removals_of(
                        replaced@,
                        replaced@.len(),
                    ));
                }
            }
            i += 1;
        }
        assert(all.take(i as int) =~= all);
        actions
    }

    /// The compound names of the migrations whose directories are removed
    /// once the baseline is recorded: all but the initial one.
    pub fn removals(&self, local: &[Migration]) -> (removed: Vec<String>)
        ensures
            texts(removed@) == names(views(local@).filter(rolled_up())),
    {
        let ghost all = views(local@);
        let ghost keep = rolled_up();
        let mut removed: Vec<String> = Vec::new();
        let mut i: usize = 0;
        assert(texts(removed@) =~= names(all.take(0).filter(keep))) by {
            reveal(Seq::filter);
        }
        while i < local.len()
            invariant
                i <= local@.len(),
                all == views(local@),
                keep == rolled_up(),
                texts(removed@) == names(all.take(i as int).filter(keep)),
            decreases local@.len() - i,
        {
            let m = &local[i];
            let ghost before = texts(removed@);
            proof {
                assert(all.take(i + 1) =~= all.take(i as int).push(m@));
                all.take(i as int).lemma_filter_push(m@, keep);
            }
            if !str_eq(m.name.as_str(), "init") {
                removed.push(m.compound_name.clone());
                assert(texts(removed@) =~= before.push(m@.compound_name));
                assert(names(all.take(i as int).filter(keep).push(m@)) =~= before.push(
                    m@.compound_name,
                ));
            }
            i += 1;
        }
        assert(all.take(i as int) =~= all);
        removed
    }
}

/// The migrations that are verified: the one of the given compound name, or
/// all where no name is given.
pub open spec fn verified(name: Option<Seq<char>>) -> spec_fn(MigrationView) -> bool {
    |m: MigrationView|
        match name {
            Some(wanted) => m.compound_name == wanted,
            None => true,
        }
}

/// What verifies one migration: it is announced, applied, reverted and
/// applied again, and then reported as in order.
pub open spec fn verification(m: MigrationView) -> Seq<ActionView> {
    seq![
        ActionView::Show("Verifying "@ + m.compound_name + "...\n"@),
        ActionView::Apply(m),
        ActionView::Revert(m),
        ActionView::Apply(m),
        ActionView::Show(" OK\n"@),
    ]
}

/// What verifies the first `upto` of `s`.
pub open spec fn verifications(s: Seq<MigrationView>, upto: nat) -> Seq<ActionView>
    decreases upto,
{
    if upto == 0 {
        Seq::empty()
    } else {
        verifications(s, (upto - 1) as nat) + verification(s[upto - 1])
    }
}

/// Apply, revert and apply again.
#[derive(Debug, PartialEq, Eq)]
pub struct Verify {
    /// The compound name of the migration; all are verified where none is
    /// given.
    pub name: Option<String>,
}

impl Verify {
    /// What verifies the migrations asked for, in local order.
    pub fn run(&self, local: &[Migration]) -> (actions: Vec<Action>)
        ensures
            ({
                let chosen = views(local@).filter(verified(text_of(self.name)));
                action_views(actions@) == verifications(chosen, chosen.len())
            }),
    {
        let ghost all = views(local@);
        let ghost keep = verified(text_of(self.name));
        let mut actions: Vec<Action> = Vec::new();
        let mut chosen: Ghost<Seq<MigrationView>> = Ghost(Seq::empty());
        let mut i: usize = 0;
        assert(chosen@ =~= all.take(0).filter(keep)) by {
            reveal(Seq::filter);
        }
        assert(action_views(actions@) =~= verifications(chosen@, 0));
        while i < local.len()
            invariant
                i <= local@.len(),
                all == views(local@),
                keep == verified(text_of(self.name)),
                chosen@ == all.take(i as int).filter(keep),
                action_views(actions@) == verifications(chosen@, chosen@.len()),
            decreases local@.len() - i,
        {
            let m = &local[i];
            proof {
                assert(all.take(i + 1) =~= all.take(i as int).push(m@));
                all.take(i as int).lemma_filter_push(m@, keep);
            }
            let wanted = match &self.name {
                Some(name) => str_eq(m.compound_name.as_str(), name.as_str()),
                None => true,
            };
            if wanted {
                let ghost before = action_views(actions@);
                let ghost earlier = chosen@;
                let mut announce = joined("Verifying ", m.compound_name.as_str());
                announce.append("...\n");
                actions.push(Action::Show(announce));
                actions.push(Action::Apply(m.clone()));
                actions.push(Action::Revert(m.clone()));
                actions.push(Action::Apply(m.clone()));
                actions.push(Action::Show(" OK\n".to_owned()));
                proof {
                    chosen@ = earlier.push(m@);
                    assert(action_views(actions@) =~= before + verification(m@));
                    lemma_verifications_prefix(earlier, chosen@, earlier.len());
                }
            }
            i += 1;
        }
        assert(all.take(i as int) =~= all);
        actions
    }
}

/// What verifies the first migrations does not depend on those after them.
proof fn lemma_verifications_prefix(a: Seq<MigrationView>, b: Seq<MigrationView>, upto: nat)
    requires
        upto <= a.len() <= b.len(),
        forall|k: int| 0 <= k < a.len() ==> a[k] == b[k],
    ensures
        verifications(a, upto) == verifications(b, upto),
    decreases upto,
{
    if upto > 0 {
        lemma_verifications_prefix(a, b, (upto - 1) as nat);
    }
}

/// The commands.
#[derive(Debug, PartialEq, Eq)]
pub enum Subcommands {
    Init(Init),
    New(New),
    Status(Status),
    Up(Up),
    Down(Down),
    Redo(Redo),
    Fix(Fix),
    Repair(Repair),
    Rollup(Rollup),
    Retime(Retime),
    Verify(Verify),
}

impl Subcommands {
    /// Whether the command waits for a database that cannot be reached yet:
    /// the commands that are run while a database starts do.
    pub fn waits(&self) -> (r: bool)
        ensures
            r == (self is Init || self is Up || self is Verify),
    {
        match self {
            Subcommands::Init(_) => true,
            Subcommands::Up(_) => true,
            Subcommands::Verify(_) => true,
            _ => false,
        }
    }
}

} // verus!
