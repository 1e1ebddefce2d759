//! Status entries, plan steps and plans, with their views.

use vstd::prelude::*;
use crate::migration::{Migration, MigrationView};

verus! {

/// How a migration stands when the local set is compared with the database.
#[derive(Debug, Clone, Copy, PartialEq, Eq, Structural)]
pub enum MigrationState {
    /// Present on both sides with the same hash.
    Applied,
    /// Present locally, absent from the database.
    Pending,
    /// Present on both sides with different hashes.
    Variant,
    /// Present in the database, absent locally.
    Divergent,
}

/// The state of one migration.
#[derive(Debug, PartialEq, Eq)]
pub struct Status {
    pub state: MigrationState,
    pub migration: Migration,
}

/// What a [`Status`] holds, as plain values.
pub struct StatusView {
    pub state: MigrationState,
    pub migration: MigrationView,
}

impl View for Status {
    type V = StatusView;

    open spec fn view(&self) -> StatusView {
        StatusView { state: self.state, migration: self.migration@ }
    }
}

impl Clone for Status {
    fn clone(&self) -> (r: Self)
        ensures
            r == *self,
    {
        Status { state: self.state, migration: self.migration.clone() }
    }
}

/// The views of a sequence of status entries, in order.
pub open spec fn status_views(s: Seq<Status>) -> Seq<StatusView> {
    s.map_values(|e: Status| e@)
}

/// One step of a plan: apply a migration, or revert one.
#[derive(Debug, PartialEq, Eq)]
pub enum PlanStep {
    Up(Migration),
    Down(Migration),
}

/// What a [`PlanStep`] holds, as plain values.
pub enum StepView {
    Up(MigrationView),
    Down(MigrationView),
}

impl StepView {
    /// The migration that the step applies or reverts.
    pub open spec fn migration(self) -> MigrationView {
        match self {
            StepView::Up(m) => m,
            StepView::Down(m) => m,
        }
    }
}

impl View for PlanStep {
    type V = StepView;

    open spec fn view(&self) -> StepView {
        match self {
            PlanStep::Up(m) => StepView::Up(m@),
            PlanStep::Down(m) => StepView::Down(m@),
        }
    }
}

impl Clone for PlanStep {
    fn clone(&self) -> (r: Self)
        ensures
            r == *self,
    {
        match self {
            PlanStep::Up(m) => PlanStep::Up(m.clone()),
            PlanStep::Down(m) => PlanStep::Down(m.clone()),
        }
    }
}

/// The views of a sequence of steps, in order.
pub open spec fn step_views(s: Seq<PlanStep>) -> Seq<StepView> {
    s.map_values(|e: PlanStep| e@)
}

/// `Up` steps for the migrations of `s`, in order.
pub open spec fn ups(s: Seq<MigrationView>) -> Seq<StepView> {
    s.map_values(|m: MigrationView| StepView::Up(m))
}

/// `Down` steps for the migrations of `s`, in order.
pub open spec fn downs(s: Seq<MigrationView>) -> Seq<StepView> {
    s.map_values(|m: MigrationView| StepView::Down(m))
}

/// An ordered sequence of steps; the order is the order of execution.
#[derive(Debug, PartialEq, Eq)]
pub struct Plan {
    pub steps: Vec<PlanStep>,
}

impl View for Plan {
    type V = Seq<StepView>;

    open spec fn view(&self) -> Seq<StepView> {
        step_views(self.steps@)
    }
}

/// How a plan is carried out.
#[derive(Debug, Clone, Copy, PartialEq, Eq, Structural)]
pub struct PlanOptions {
    /// Run `seed.sql` after applying a migration.
    pub seed: bool,
    /// Only show the plan; change nothing.
    pub plan_only: bool,
}

} // verus!
