//! Carrying out a plan: what is to be done, in order, for a plan and the
//! options it is run with.

use vstd::prelude::*;
use vstd::string::*;
use crate::migration::{Migration, MigrationView, clone_text, text_of};
use crate::plan::{Plan, PlanOptions, PlanStep, StepView};
use crate::render::{plan_text, step_line, sync_line, sync_text};

verus! {

/// One thing to do while a command is carried out. The caller does them in
/// order and stops at the first that fails.
#[derive(Debug, PartialEq, Eq)]
pub enum Action {
    /// Write the text to the standard output.
    Show(String),
    /// Apply the migration through the adapter.
    Apply(Migration),
    /// Revert the migration through the adapter.
    Revert(Migration),
    /// Write the directory of a new migration, with the given scripts.
    Create { compound_name: String, up_sql: Option<String>, seed_sql: Option<String> },
    /// Delete every tracking row but the oldest, through the adapter.
    Clear,
    /// Record a migration as applied without running it, through the adapter.
    Baseline { name: String, hash: String },
    /// Delete the directory of a migration.
    Remove { compound_name: String },
}

/// What an [`Action`] holds, as plain values.
pub enum ActionView {
    Show(Seq<char>),
    Apply(MigrationView),
    Revert(MigrationView),
    Create { compound_name: Seq<char>, up_sql: Option<Seq<char>>, seed_sql: Option<Seq<char>> },
    Clear,
    Baseline { name: Seq<char>, hash: Seq<char> },
    Remove { compound_name: Seq<char> },
}

impl View for Action {
    type V = ActionView;

    open spec fn view(&self) -> ActionView {
        match self {
            Action::Show(text) => ActionView::Show(text@),
            Action::Apply(m) => ActionView::Apply(m@),
            Action::Revert(m) => ActionView::Revert(m@),
            Action::Create { compound_name, up_sql, seed_sql } => ActionView::Create {
                compound_name: compound_name@,
                up_sql: text_of(*up_sql),
                seed_sql: text_of(*seed_sql),
            },
            Action::Clear => ActionView::Clear,
            Action::Baseline { name, hash } => ActionView::Baseline { name: name@, hash: hash@ },
            Action::Remove { compound_name } => ActionView::Remove {
                compound_name: compound_name@,
            },
        }
    }
}

/// The views of a sequence of actions, in order.
pub open spec fn action_views(s: Seq<Action>) -> Seq<ActionView> {
    s.map_values(|a: Action| a@)
}

/// `m` without its seed.
pub open spec fn unseeded(m: MigrationView) -> MigrationView {
    MigrationView { seed_sql: None, ..m }
}

/// What a step asks of the adapter: a migration is applied with its seed
/// only where seeding is asked for.
pub open spec fn step_action(step: StepView, seed: bool) -> ActionView {
    match step {
        StepView::Up(m) => ActionView::Apply(
            if seed {
                m
            } else {
                unseeded(m)
            },
        ),
        StepView::Down(m) => ActionView::Revert(m),
    }
}

/// What is done for the first `upto` steps: each is put to the adapter and
/// then reported on a line of its own.
pub open spec fn step_actions(steps: Seq<StepView>, upto: nat, seed: bool) -> Seq<ActionView>
    decreases upto,
{
    if upto == 0 {
        Seq::empty()
    } else {
        step_actions(steps, (upto - 1) as nat, seed) + seq![
            step_action(steps[upto - 1], seed),
            ActionView::Show(step_line(steps[upto - 1]) + "\n"@),
        ]
    }
}

/// What is done for a plan: its listing is shown and nothing else where only
/// the plan is asked for; else every step is put to the adapter and reported.
pub open spec fn plan_actions(steps: Seq<StepView>, options: PlanOptions) -> Seq<ActionView> {
    if options.plan_only {
        seq![ActionView::Show(plan_text(steps))]
    } else {
        step_actions(steps, steps.len(), options.seed)
    }
}

impl Plan {
    /// What is to be done to carry out the plan, in order.
    pub fn run(&self, options: &PlanOptions) -> (actions: Vec<Action>)
        ensures
            action_views(actions@) == plan_actions(self@, *options),
    {
        let mut actions: Vec<Action> = Vec::new();
        if options.plan_only {
            let listing = self.render();
            actions.push(Action::Show(listing));
            assert(action_views(actions@) =~= seq![ActionView::Show(plan_text(self@))]);
            return actions;
        }
        let mut i: usize = 0;
        assert(action_views(actions@) =~= step_actions(self@, 0, options.seed));
        while i < self.steps.len()
            invariant
                i <= self.steps@.len(),
                action_views(actions@) == step_actions(self@, i as nat, options.seed),
            decreases self.steps@.len() - i,
        {
            let ghost before = action_views(actions@);
            let step = &self.steps[i];
            assert(self@[i as int] == step@);
            let action = match step {
                PlanStep::Down(m) => Action::Revert(m.clone()),
                PlanStep::Up(m) => {
                    if options.seed {
                        Action::Apply(m.clone())
                    } else {
                        Action::Apply(
                            Migration {
                                name: m.name.clone(),
                                compound_name: m.compound_name.clone(),
                                up_sql: clone_text(&m.up_sql),
                                down_sql: clone_text(&m.down_sql),
                                seed_sql: None,
                                hash: m.hash.clone(),
                            },
                        )
                    }
                },
            };
            let mut line = step.render();
            line.append("\n");
            let report = Action::Show(line);
            actions.push(action);
            actions.push(report);
            assert(action_views(actions@) =~= before + seq![action@, report@]);
            i += 1;
        }
        actions
    }
}

/// What takes a rollup as baseline, in order: every record but the oldest
/// is cleared, the rollup is recorded, and the line that says so is shown.
pub open spec fn sync_steps(rollup: MigrationView) -> Seq<ActionView> {
    seq![
        ActionView::Clear,
        ActionView::Baseline { name: rollup.compound_name, hash: rollup.hash },
        ActionView::Show(sync_text(rollup)),
    ]
}

/// What takes the rollup that `sync_rollup` hands out as baseline, in order.
/// Once it is done, the database holds the records that `up` plans over.
pub fn sync_actions(rollup: &Migration) -> (actions: Vec<Action>)
    ensures
        action_views(actions@) == sync_steps(rollup@),
{
    let mut actions: Vec<Action> = Vec::new();
    actions.push(Action::Clear);
    actions.push(
        Action::Baseline { name: rollup.compound_name.clone(), hash: rollup.hash.clone() },
    );
    actions.push(Action::Show(sync_line(rollup)));
    assert(action_views(actions@) =~= sync_steps(rollup@));
    actions
}

} // verus!
