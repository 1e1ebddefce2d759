//! The lines that report a status listing, a plan and its steps.

use vstd::prelude::*;
use vstd::string::*;
use crate::migration::{Migration, MigrationView};
use crate::paint::{green, red, yellow, cyan, green_text, red_text, yellow_text, cyan_text};
use crate::plan::{MigrationState, Plan, PlanStep, Status, StatusView, StepView, status_views};
use crate::text::{decimal, decimal_text, pad_left, padded_left};

verus! {

/// The line for a step: `Up` in green or `Down` in red, set right in four
/// columns, then the compound name.
pub open spec fn step_line(step: StepView) -> Seq<char> {
    match step {
        StepView::Up(m) => green_text(padded_left("Up"@, 4)) + " - "@ + m.compound_name,
        StepView::Down(m) => red_text(padded_left("Down"@, 4)) + " - "@ + m.compound_name,
    }
}

/// The line for the step at position `number`, counted from one: the number
/// set right in two columns, a full stop, the line of the step, a line break.
pub open spec fn numbered_line(number: nat, step: StepView) -> Seq<char> {
    padded_left(decimal_text(number), 2) + ". "@ + step_line(step) + "\n"@
}

/// The numbered lines of the first `upto` steps.
pub open spec fn plan_lines(steps: Seq<StepView>, upto: nat) -> Seq<char>
    decreases upto,
{
    if upto == 0 {
        Seq::empty()
    } else {
        plan_lines(steps, (upto - 1) as nat) + numbered_line(upto, steps[upto - 1])
    }
}

/// The listing of a plan: a numbered line for each step.
pub open spec fn plan_text(steps: Seq<StepView>) -> Seq<char> {
    plan_lines(steps, steps.len())
}

/// The label of a state, set right in nine columns and coloured.
pub open spec fn state_label(state: MigrationState) -> Seq<char> {
    match state {
        MigrationState::Applied => green_text(padded_left("Applied"@, 9)),
        MigrationState::Pending => yellow_text(padded_left("Pending"@, 9)),
        MigrationState::Variant => red_text(padded_left("Variant"@, 9)),
        MigrationState::Divergent => red_text(padded_left("Divergent"@, 9)),
    }
}

/// The line for a status entry: the label of its state, then the compound
/// name, then a line break.
pub open spec fn status_line(entry: StatusView) -> Seq<char> {
    state_label(entry.state) + " - "@ + entry.migration.compound_name + "\n"@
}

/// The lines of the first `upto` entries.
pub open spec fn status_lines(entries: Seq<StatusView>, upto: nat) -> Seq<char>
    decreases upto,
{
    if upto == 0 {
        Seq::empty()
    } else {
        status_lines(entries, (upto - 1) as nat) + status_line(entries[upto - 1])
    }
}

/// The line that reports that a rollup was taken as baseline.
pub open spec fn sync_text(rollup: MigrationView) -> Seq<char> {
    cyan_text("Sync"@) + " - "@ + rollup.compound_name + "\n"@
}

impl PlanStep {
    /// The line that reports the step.
    pub fn render(&self) -> (line: String)
        ensures
            line@ == step_line(self@),
    {
        let (mut line, name) = match self {
            PlanStep::Up(m) => (green(pad_left("Up", 4).as_str()), m.compound_name.as_str()),
            PlanStep::Down(m) => (red(pad_left("Down", 4).as_str()), m.compound_name.as_str()),
        };
        line.append(" - ");
        line.append(name);
        line
    }
}

impl Plan {
    /// The listing of the plan: a numbered line for each step.
    pub fn render(&self) -> (text: String)
        ensures
            text@ == plan_text(self@),
    {
        let mut text = String::new();
        let mut i: usize = 0;
        while i < self.steps.len()
            invariant
                i <= self.steps@.len(),
                text@ == plan_lines(self@, i as nat),
            decreases self.steps@.len() - i,
        {
            let ghost before = text@;
            let number = pad_left(decimal(i + 1).as_str(), 2);
            let line = self.steps[i].render();
            text.append(number.as_str());
            text.append(". ");
            text.append(line.as_str());
            text.append("\n");
            assert(self@[i as int] == self.steps@[i as int]@);
            assert(text@ =~= before + numbered_line((i + 1) as nat, self@[i as int]));
            i += 1;
        }
        text
    }
}

/// The lines that report a status listing, one for each entry.
pub fn print_status(statuses: &[Status]) -> (text: String)
    ensures
        text@ == status_lines(status_views(statuses@), statuses@.len()),
{
    let mut text = String::new();
    let mut i: usize = 0;
    while i < statuses.len()
        invariant
            i <= statuses@.len(),
            text@ == status_lines(status_views(statuses@), i as nat),
        decreases statuses@.len() - i,
    {
        let ghost before = text@;
        let entry = &statuses[i];
        let label = match entry.state {
            MigrationState::Applied => green(pad_left("Applied", 9).as_str()),
            MigrationState::Pending => yellow(pad_left("Pending", 9).as_str()),
            MigrationState::Variant => red(pad_left("Variant", 9).as_str()),
            MigrationState::Divergent => red(pad_left("Divergent", 9).as_str()),
        };
        text.append(label.as_str());
        text.append(" - ");
        text.append(entry.migration.compound_name.as_str());
        text.append("\n");
        assert(status_views(statuses@)[i as int] == entry@);
        assert(text@ =~= before + status_line(entry@));
        i += 1;
    }
    text
}

/// The line that reports that `rollup` was taken as baseline.
pub fn sync_line(rollup: &Migration) -> (line: String)
    ensures
        line@ == sync_text(rollup@),
{
    let mut line = cyan("Sync");
    line.append(" - ");
    line.append(rollup.compound_name.as_str());
    line.append("\n");
    line
}

} // verus!
