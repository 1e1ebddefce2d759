//! The ways in which planning can fail.

use vstd::prelude::*;
use vstd::string::*;
use crate::text::joined;

verus! {

/// A reason for which no plan can be made.
#[derive(Debug, PartialEq, Eq)]
pub enum PlanError {
    /// A local rollup is not recorded in the database and cannot be brought in.
    RollupOutOfSync,
    /// A migration older than a pending rollup has not been applied.
    PendingBeforeRollup,
    /// The named migration would be rolled back but has no `down.sql`.
    UnreversibleRollback(String),
    /// The named migration would be redone but has no `down.sql`.
    UnreversibleRedo(String),
    /// The named migration would be redone but does not exist locally.
    DivergentRedo(String),
}

/// What a [`PlanError`] holds, as plain text.
pub enum PlanErrorView {
    RollupOutOfSync,
    PendingBeforeRollup,
    UnreversibleRollback(Seq<char>),
    UnreversibleRedo(Seq<char>),
    DivergentRedo(Seq<char>),
}

impl View for PlanError {
    type V = PlanErrorView;

    open spec fn view(&self) -> PlanErrorView {
        match self {
            PlanError::RollupOutOfSync => PlanErrorView::RollupOutOfSync,
            PlanError::PendingBeforeRollup => PlanErrorView::PendingBeforeRollup,
            PlanError::UnreversibleRollback(n) => PlanErrorView::UnreversibleRollback(n@),
            PlanError::UnreversibleRedo(n) => PlanErrorView::UnreversibleRedo(n@),
            PlanError::DivergentRedo(n) => PlanErrorView::DivergentRedo(n@),
        }
    }
}

impl PlanErrorView {
    /// The message that reports the error.
    pub open spec fn message(self) -> Seq<char> {
        match self {
            PlanErrorView::RollupOutOfSync => "unable to sync the rollup, please reset the database"@,
            PlanErrorView::PendingBeforeRollup =>
                "pending migrations before the rollup, please re-order them to the end"@,
            PlanErrorView::UnreversibleRollback(name) =>
                "unable to rollback unreversible migration "@ + name,
            PlanErrorView::UnreversibleRedo(name) => "unable to redo unreversible migration "@
                + name,
            PlanErrorView::DivergentRedo(name) => "unable to redo divergent migration "@ + name,
        }
    }
}

impl PlanError {
    /// The message that reports the error.
    pub fn message(&self) -> (text: String)
        ensures
            text@ == self@.message(),
    {
        match self {
            PlanError::RollupOutOfSync =>
                "unable to sync the rollup, please reset the database".to_owned(),
            PlanError::PendingBeforeRollup =>
                "pending migrations before the rollup, please re-order them to the end".to_owned(),
            PlanError::UnreversibleRollback(name) => joined(
                "unable to rollback unreversible migration ",
                name.as_str(),
            ),
            PlanError::UnreversibleRedo(name) => joined(
                "unable to redo unreversible migration ",
                name.as_str(),
            ),
            PlanError::DivergentRedo(name) => joined(
                "unable to redo divergent migration ",
                name.as_str(),
            ),
        }
    }
}

} // verus!
