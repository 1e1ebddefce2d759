//! What carrying out a plan does to the tracking table, and the laws that
//! follow: applying and reverting a migration cancel, and a `fix` plan brings
//! the table to the local set.

use vstd::prelude::*;
use crate::script::{StatementView, UnitView, up_script, down_script, single};
use crate::ledger::{
    RowView, Outcome, holds, other_than, without, oldest, after_statement, run_statements,
    run_unit, run_units, unbroken,
};
use crate::migration::{MigrationView, has_name, find_by_name, lemma_find_by_name};
use crate::plan::{StepView, ups, downs};
use crate::laws::names;
use crate::reconcile::{
    absent_from, agrees, agreeing_prefix, counterparts, fix_plan, pending, redo_candidates,
    redo_obstacle, redo_plan, up_steps, rollup_sync, synced_records, after_sync,
    first_pending_rollup, is_rollup,
};

verus! {

/// The tracking row that records `m`.
pub open spec fn row_of(m: MigrationView) -> RowView {
    RowView { name: m.compound_name, hash: m.hash, down_sql: m.down_sql }
}

/// The tracking rows that record the migrations of `s`, in order.
pub open spec fn recorded(s: Seq<MigrationView>) -> Seq<RowView> {
    s.map_values(|m: MigrationView| row_of(m))
}

/// What a step runs.
pub open spec fn step_script(step: StepView) -> Seq<UnitView> {
    match step {
        StepView::Up(m) => up_script(m),
        StepView::Down(m) => down_script(m),
    }
}

/// The outcome of the steps carried out one after the other until one fails:
/// what follows the step that fails is not carried out.
pub open spec fn run_plan(
    table: Seq<RowView>,
    steps: Seq<StepView>,
    broken: Seq<Seq<char>>,
) -> Outcome
    decreases steps.len(),
{
    if steps.len() == 0 {
        Outcome { table, done: true }
    } else {
        let first = run_units(table, step_script(steps[0]), broken);
        if first.done {
            run_plan(first.table, steps.drop_first(), broken)
        } else {
            first
        }
    }
}

/// Whether no two migrations of `s` share a compound name.
pub open spec fn distinct_names(s: Seq<MigrationView>) -> bool {
    forall|i: int, j: int|
        0 <= i < j < s.len() ==> (#[trigger] s[i]).compound_name != (#[trigger] s[j]).compound_name
}

/// Whether no two rows of the table share a name.
pub open spec fn distinct_rows(table: Seq<RowView>) -> bool {
    forall|i: int, j: int|
        0 <= i < j < table.len() ==> (#[trigger] table[i]).name != (#[trigger] table[j]).name
}

/// Whether the table has a row of that name with that hash.
pub open spec fn tracks(table: Seq<RowView>, name: Seq<char>, hash: Seq<char>) -> bool {
    exists|i: int|
        0 <= i < table.len() && (#[trigger] table[i]).name == name && table[i].hash == hash
}

/// Whether `s` has a migration of that compound name with that hash.
pub open spec fn offers(s: Seq<MigrationView>, name: Seq<char>, hash: Seq<char>) -> bool {
    exists|i: int|
        0 <= i < s.len() && (#[trigger] s[i]).compound_name == name && s[i].hash == hash
}

/// A unit of a script and a statement on the table run to the end.
proof fn lemma_run_pair(table: Seq<RowView>, atomic: bool, script: Seq<char>, then: StatementView)
    ensures
        run_unit(
            table,
            UnitView { atomic, statements: seq![StatementView::Run(script), then] }, unbroken(),
        ) == match after_statement(table, then, unbroken()) {
            Some(next) => Outcome { table: next, done: true },
            None => Outcome { table, done: false },
        },
{
    let statements = seq![StatementView::Run(script), then];
    let rest = statements.drop_first();
    assert(rest[0] == then);
    assert(rest.drop_first().len() == 0);
    reveal_with_fuel(run_statements, 3);
}

/// Applying `m` adds its row, and fails where the table has its name already.
pub proof fn lemma_up_outcome(table: Seq<RowView>, m: MigrationView)
    ensures
        run_units(table, up_script(m), unbroken()) == if holds(table, m.compound_name) {
            Outcome { table, done: false }
        } else {
            Outcome { table: table.push(row_of(m)), done: true }
        },
{
    let record = StatementView::Record { name: m.compound_name, hash: m.hash, down_sql: m.down_sql };
    let script = up_script(m);
    lemma_run_pair(table, script[0].atomic, m.up_sql->0, record);
    reveal_with_fuel(run_units, 3);
    reveal_with_fuel(run_statements, 2);
    if let Some(seed) = m.seed_sql {
        let rest = script.drop_first();
        assert(rest[0] == UnitView { atomic: true, statements: seq![StatementView::Run(seed)] });
        assert(rest.drop_first().len() == 0);
        assert(rest[0].statements.drop_first().len() == 0);
    } else {
        assert(script.drop_first().len() == 0);
    }
}

/// Reverting `m` removes the rows of its name.
pub proof fn lemma_down_outcome(table: Seq<RowView>, m: MigrationView)
    ensures
        run_units(table, down_script(m), unbroken()) == (Outcome {
            table: without(table, m.compound_name),
            done: true,
        }),
{
    let script = down_script(m);
    lemma_run_pair(
        table,
        script[0].atomic,
        m.down_sql->0,
        StatementView::Forget { name: m.compound_name },
    );
    reveal_with_fuel(run_units, 2);
    assert(script.drop_first().len() == 0);
}

/// A filter that every row passes changes nothing.
proof fn lemma_filter_keeps_all(table: Seq<RowView>, keep: spec_fn(RowView) -> bool)
    requires
        forall|i: int| 0 <= i < table.len() ==> keep(#[trigger] table[i]),
    ensures
        table.filter(keep) == table,
    decreases table.len(),
{
    reveal(Seq::filter);
    if table.len() > 0 {
        let front = table.drop_last();
        assert forall|i: int| 0 <= i < front.len() implies keep(#[trigger] front[i]) by {
            assert(front[i] == table[i]);
        }
        lemma_filter_keeps_all(front, keep);
        assert(front.push(table.last()) =~= table);
    }
}

/// After a migration was applied and reverted, the table is as it was before.
pub proof fn law_up_then_down_restores(table: Seq<RowView>, m: MigrationView)
    ensures
        run_units(table, up_script(m), unbroken()).done ==> run_units(
            run_units(table, up_script(m), unbroken()).table,
            down_script(m), unbroken(),
        ) == (Outcome { table, done: true }),
{
    lemma_up_outcome(table, m);
    if !holds(table, m.compound_name) {
        let keep = other_than(m.compound_name);
        let with = table.push(row_of(m));
        lemma_down_outcome(with, m);
        table.lemma_filter_push(row_of(m), keep);
        lemma_filter_keeps_all(table, keep);
    }
}

/// Steps carried out after other steps start from where those ended.
proof fn lemma_run_plan_continues(table: Seq<RowView>, first: Seq<StepView>, then: Seq<StepView>)
    requires
        run_plan(table, first, unbroken()).done,
    ensures
        run_plan(table, first + then, unbroken()) == run_plan(run_plan(table, first, unbroken()).table, then, unbroken()),
    decreases first.len(),
{
    if first.len() == 0 {
        assert(first + then =~= then);
    } else {
        let all = first + then;
        assert(all[0] == first[0]);
        assert(all.drop_first() =~= first.drop_first() + then);
        let next = run_units(table, step_script(first[0]), unbroken());
        lemma_run_plan_continues(next.table, first.drop_first(), then);
    }
}

/// Reverting the last records of a table, last first, leaves the records
/// before them.
proof fn lemma_revert_tail(head: Seq<MigrationView>, tail: Seq<MigrationView>)
    requires
        distinct_names(head + tail),
    ensures
        run_plan(recorded(head + tail), downs(tail.reverse()), unbroken()) == (Outcome {
            table: recorded(head),
            done: true,
        }),
    decreases tail.len(),
{
    if tail.len() == 0 {
        assert(head + tail =~= head);
    } else {
        let last = tail.last();
        let shorter = tail.drop_last();
        let all = head + tail;
        let front = head + shorter;
        let steps = downs(tail.reverse());
        assert(all =~= front.push(last));
        assert(steps[0] == StepView::Down(last));
        assert(steps.drop_first() =~= downs(shorter.reverse()));
        let keep = other_than(last.compound_name);
        lemma_down_outcome(recorded(all), last);
        assert(recorded(all) =~= recorded(front).push(row_of(last)));
        recorded(front).lemma_filter_push(row_of(last), keep);
        assert forall|i: int| 0 <= i < recorded(front).len() implies keep(
            #[trigger] recorded(front)[i],
        ) by {
            assert(all[i] == front[i]);
            assert(all[all.len() - 1] == last);
        }
        lemma_filter_keeps_all(recorded(front), keep);
        assert forall|i: int, j: int| 0 <= i < j < front.len() implies (
        #[trigger] front[i]).compound_name != (#[trigger] front[j]).compound_name by {
            assert(all[i] == front[i] && all[j] == front[j]);
        }
        lemma_revert_tail(head, shorter);
    }
}

/// Applying migrations whose names are new to the table and distinct adds
/// their rows in order.
proof fn lemma_apply_new(table: Seq<RowView>, fresh: Seq<MigrationView>)
    requires
        distinct_names(fresh),
        forall|i: int| 0 <= i < fresh.len() ==> !holds(table, (#[trigger] fresh[i]).compound_name),
    ensures
        run_plan(table, ups(fresh), unbroken()) == (Outcome { table: table + recorded(fresh), done: true }),
    decreases fresh.len(),
{
    if fresh.len() == 0 {
        assert(table + recorded(fresh) =~= table);
    } else {
        let first = fresh[0];
        let rest = fresh.drop_first();
        let steps = ups(fresh);
        assert(steps[0] == StepView::Up(first));
        assert(steps.drop_first() =~= ups(rest));
        lemma_up_outcome(table, first);
        let next = table.push(row_of(first));
        assert forall|i: int, j: int| 0 <= i < j < rest.len() implies (
        #[trigger] rest[i]).compound_name != (#[trigger] rest[j]).compound_name by {
            assert(rest[i] == fresh[i + 1] && rest[j] == fresh[j + 1]);
        }
        assert forall|i: int| 0 <= i < rest.len() implies !holds(
            next,
            (#[trigger] rest[i]).compound_name,
        ) by {
            assert(rest[i] == fresh[i + 1]);
            if holds(next, rest[i].compound_name) {
                let k = choose|k: int|
                    0 <= k < next.len() && (#[trigger] next[k]).name == rest[i].compound_name;
                if k < table.len() {
                    assert(table[k] == next[k]);
                }
            }
        }
        lemma_apply_new(next, rest);
        assert(next + recorded(rest) =~= table + recorded(fresh));
    }
}

/// Every record of the agreeing prefix is held locally under the same hash.
proof fn lemma_agreeing_prefix(local: Seq<MigrationView>, remote: Seq<MigrationView>)
    ensures
        agreeing_prefix(local, remote) <= remote.len(),
        forall|i: int|
            0 <= i < agreeing_prefix(local, remote) ==> agrees(local, #[trigger] remote[i]),
    decreases remote.len(),
{
    if remote.len() > 0 && agrees(local, remote[0]) {
        let rest = remote.drop_first();
        lemma_agreeing_prefix(local, rest);
        assert forall|i: int| 0 <= i < agreeing_prefix(local, remote) implies agrees(
            local,
            #[trigger] remote[i],
        ) by {
            if i > 0 {
                assert(remote[i] == rest[i - 1]);
            }
        }
    }
}

/// What is kept of a sequence with distinct names has distinct names.
proof fn lemma_filter_keeps_distinct(s: Seq<MigrationView>, keep: spec_fn(MigrationView) -> bool)
    requires
        distinct_names(s),
    ensures
        distinct_names(s.filter(keep)),
        forall|i: int|
            0 <= i < s.filter(keep).len() ==> keep(#[trigger] s.filter(keep)[i]) && s.contains(
                s.filter(keep)[i],
            ),
        forall|i: int| 0 <= i < s.len() && keep(#[trigger] s[i]) ==> s.filter(keep).contains(s[i]),
    decreases s.len(),
{
    reveal(Seq::filter);
    if s.len() > 0 {
        let front = s.drop_last();
        assert forall|i: int, j: int| 0 <= i < j < front.len() implies (
        #[trigger] front[i]).compound_name != (#[trigger] front[j]).compound_name by {
            assert(front[i] == s[i] && front[j] == s[j]);
        }
        lemma_filter_keeps_distinct(front, keep);
        let kept = front.filter(keep);
        let all = s.filter(keep);
        assert forall|i: int| 0 <= i < all.len() implies keep(#[trigger] all[i]) && s.contains(
            all[i],
        ) by {
            if i < kept.len() {
                assert(all[i] == kept[i]);
                let k = choose|k: int| 0 <= k < front.len() && front[k] == kept[i];
                assert(s[k] == front[k]);
            } else {
                assert(s[s.len() - 1] == s.last());
            }
        }
        assert forall|i: int, j: int| 0 <= i < j < all.len() implies (
        #[trigger] all[i]).compound_name != (#[trigger] all[j]).compound_name by {
            assert(all[i] == kept[i]);
            if j < kept.len() {
                assert(all[j] == kept[j]);
            } else {
                let k = choose|k: int| 0 <= k < front.len() && front[k] == kept[i];
                assert(s[k] == front[k]);
                assert(s[s.len() - 1] == s.last());
            }
        }
        assert forall|i: int| 0 <= i < s.len() && keep(#[trigger] s[i]) implies all.contains(
            s[i],
        ) by {
            if i < front.len() {
                assert(front[i] == s[i]);
                let k = choose|k: int| 0 <= k < kept.len() && kept[k] == front[i];
                assert(all[k] == kept[k]);
            } else {
                assert(all[all.len() - 1] == s[i]);
            }
        }
    }
}

/// In a sequence with distinct names, a search by name finds the one
/// migration of that name.
proof fn lemma_find_distinct(s: Seq<MigrationView>, i: int)
    requires
        distinct_names(s),
        0 <= i < s.len(),
    ensures
        find_by_name(s, s[i].compound_name) == Some(s[i]),
{
    lemma_find_by_name(s, s[i].compound_name);
    let found = find_by_name(s, s[i].compound_name)->0;
    let k = choose|k: int| 0 <= k < s.len() && s[k] == found;
    assert(s[k].compound_name == s[i].compound_name);
    assert(k == i);
}

/// Carrying out a `fix` plan on the records of the database runs to the end
/// and leaves a table that records each compound name once and that holds a
/// name under a hash exactly when the local set does, provided that neither
/// side holds a compound name twice. The table is then the agreeing prefix of
/// the records, followed by the local migrations that were not in it.
pub proof fn law_fix_reconciles(local: Seq<MigrationView>, remote: Seq<MigrationView>)
    requires
        distinct_names(local),
        distinct_names(remote),
    ensures
        fix_plan(local, remote) matches Ok(steps) ==> {
            let end = run_plan(recorded(remote), steps, unbroken());
            let kept = remote.take(agreeing_prefix(local, remote) as int);
            &&& end.done
            &&& end.table == recorded(kept) + recorded(local.filter(absent_from(kept)))
            &&& distinct_rows(end.table)
            &&& forall|name: Seq<char>, hash: Seq<char>| #[trigger]
                tracks(end.table, name, hash) <==> offers(local, name, hash)
        },
{
    if let Ok(steps) = fix_plan(local, remote) {
        lemma_agreeing_prefix(local, remote);
        let k = agreeing_prefix(local, remote) as int;
        let kept = remote.take(k);
        let tail = remote.skip(k);
        let fresh = local.filter(absent_from(kept));
        assert(kept + tail =~= remote);
        lemma_revert_tail(kept, tail);
        lemma_filter_keeps_distinct(local, absent_from(kept));
        assert forall|i: int| 0 <= i < fresh.len() implies !holds(
            recorded(kept),
            (#[trigger] fresh[i]).compound_name,
        ) by {
            assert(absent_from(kept)(fresh[i]));
            if holds(recorded(kept), fresh[i].compound_name) {
                let j = choose|j: int|
                    0 <= j < recorded(kept).len() && (#[trigger] recorded(kept)[j]).name
                        == fresh[i].compound_name;
                assert(kept[j].compound_name == fresh[i].compound_name);
            }
        }
        lemma_apply_new(recorded(kept), fresh);
        lemma_run_plan_continues(recorded(remote), downs(tail.reverse()), ups(fresh));
        let table = recorded(kept) + recorded(fresh);
        assert(run_plan(recorded(remote), steps, unbroken()).table == table);
        assert forall|i: int, j: int| 0 <= i < j < table.len() implies (#[trigger] table[i]).name
            != (#[trigger] table[j]).name by {
            if j < kept.len() {
                assert(kept[i] == remote[i] && kept[j] == remote[j]);
            } else if i < kept.len() {
                assert(absent_from(kept)(fresh[j - kept.len()]));
                assert(kept[i].compound_name == table[i].name);
            } else {
                assert(table[i] == row_of(fresh[i - kept.len()]));
                assert(table[j] == row_of(fresh[j - kept.len()]));
            }
        }
        assert forall|name: Seq<char>, hash: Seq<char>| #[trigger]
            tracks(table, name, hash) <==> offers(local, name, hash) by {
            if tracks(table, name, hash) {
                let i = choose|i: int|
                    0 <= i < table.len() && (#[trigger] table[i]).name == name && table[i].hash
                        == hash;
                if i < kept.len() {
                    assert(kept[i] == remote[i]);
                    assert(agrees(local, remote[i]));
                    lemma_find_by_name(local, name);
                    let found = find_by_name(local, name)->0;
                    let j = choose|j: int| 0 <= j < local.len() && local[j] == found;
                    assert(local[j].compound_name == name && local[j].hash == hash);
                } else {
                    let m = fresh[i - kept.len()];
                    assert(table[i] == row_of(m));
                    assert(local.contains(m));
                    let j = choose|j: int| 0 <= j < local.len() && local[j] == m;
                    assert(local[j].compound_name == name && local[j].hash == hash);
                }
            }
            if offers(local, name, hash) {
                let j = choose|j: int|
                    0 <= j < local.len() && (#[trigger] local[j]).compound_name == name
                        && local[j].hash == hash;
                if has_name(kept, name) {
                    let i = choose|i: int|
                        0 <= i < kept.len() && (#[trigger] kept[i]).compound_name == name;
                    assert(kept[i] == remote[i]);
                    assert(agrees(local, remote[i]));
                    lemma_find_distinct(local, j);
                    assert(table[i] == row_of(kept[i]));
                    assert(table[i].name == name && table[i].hash == hash);
                } else {
                    assert(absent_from(kept)(local[j]));
                    assert(fresh.contains(local[j]));
                    let i = choose|i: int| 0 <= i < fresh.len() && fresh[i] == local[j];
                    assert(table[kept.len() + i] == row_of(fresh[i]));
                    assert(table[kept.len() + i].name == name && table[kept.len() + i].hash
                        == hash);
                }
            }
        }
    }
}

/// Carrying out an `up` plan without a limit on the records of the database
/// runs to the end and adds the rows of the pending migrations in local
/// order, provided that no two local migrations share a compound name.
pub proof fn law_up_catches_up(local: Seq<MigrationView>, remote: Seq<MigrationView>)
    requires
        distinct_names(local),
    ensures
        run_plan(recorded(remote), up_steps(local, remote, None), unbroken()) == (Outcome {
            table: recorded(remote) + recorded(pending(local, remote)),
            done: true,
        }),
{
    let fresh = pending(local, remote);
    lemma_filter_keeps_distinct(local, absent_from(remote));
    assert forall|i: int| 0 <= i < fresh.len() implies !holds(
        recorded(remote),
        (#[trigger] fresh[i]).compound_name,
    ) by {
        assert(absent_from(remote)(fresh[i]));
        if holds(recorded(remote), fresh[i].compound_name) {
            let j = choose|j: int|
                0 <= j < recorded(remote).len() && (#[trigger] recorded(remote)[j]).name
                    == fresh[i].compound_name;
            assert(remote[j].compound_name == fresh[i].compound_name);
        }
    }
    lemma_apply_new(recorded(remote), fresh);
}

/// Where the candidates of a `redo` plan are the most recent records of the
/// database, carrying out the plan runs to the end and leaves the records
/// before them, followed by the rows of their local counterparts in the
/// order in which the records stood: the table holds the same names in the
/// same order as before. No two records may share a compound name.
pub proof fn law_redo_keeps_the_order(
    local: Seq<MigrationView>,
    remote: Seq<MigrationView>,
    count: Option<usize>,
    ignore_divergent: bool,
    ignore_unreversible: bool,
)
    requires
        distinct_names(remote),
    ensures
        ({
            let candidates = redo_candidates(
                local,
                remote,
                count,
                ignore_divergent,
                ignore_unreversible,
            );
            let kept = remote.len() - candidates.len();
            redo_plan(local, remote, count, ignore_divergent, ignore_unreversible) matches Ok(
                steps,
            ) ==> (0 <= kept && candidates == remote.skip(kept).reverse() ==> {
                let end = run_plan(recorded(remote), steps, unbroken());
                &&& end.done
                &&& end.table == recorded(remote.take(kept)) + recorded(
                    counterparts(local, candidates).reverse(),
                )
                &&& row_names(end.table) == names(remote)
            })
        }),
{
    let candidates = redo_candidates(local, remote, count, ignore_divergent, ignore_unreversible);
    let kept = remote.len() - candidates.len();
    if let Ok(steps) = redo_plan(local, remote, count, ignore_divergent, ignore_unreversible) {
        if 0 <= kept && candidates == remote.skip(kept).reverse() {
            let head = remote.take(kept);
            let tail = remote.skip(kept);
            let again = counterparts(local, candidates).reverse();
            assert(head + tail =~= remote);
            lemma_revert_tail(head, tail);
            lemma_redo_candidates_exist(local, candidates);
            assert forall|i: int| 0 <= i < again.len() implies (#[trigger] again[i]).compound_name
                == tail[i].compound_name by {
                let k = candidates.len() - 1 - i;
                assert(again[i] == counterparts(local, candidates)[k]);
                assert(candidates[k] == tail[tail.len() - 1 - k]);
                lemma_find_by_name(local, candidates[k].compound_name);
            }
            assert forall|i: int, j: int| 0 <= i < j < again.len() implies (
            #[trigger] again[i]).compound_name != (#[trigger] again[j]).compound_name by {
                assert(tail[i] == remote[kept + i] && tail[j] == remote[kept + j]);
            }
            assert forall|i: int| 0 <= i < again.len() implies !holds(
                recorded(head),
                (#[trigger] again[i]).compound_name,
            ) by {
                if holds(recorded(head), again[i].compound_name) {
                    let j = choose|j: int|
                        0 <= j < recorded(head).len() && (#[trigger] recorded(head)[j]).name
                            == again[i].compound_name;
                    assert(head[j] == remote[j]);
                    assert(tail[i] == remote[kept + i]);
                }
            }
            lemma_apply_new(recorded(head), again);
            lemma_run_plan_continues(recorded(remote), downs(candidates), ups(again));
            let table = recorded(head) + recorded(again);
            assert(row_names(table) =~= names(remote)) by {
                assert forall|i: int| 0 <= i < remote.len() implies row_names(table)[i] == names(
                    remote,
                )[i] by {
                    if i < kept {
                        assert(head[i] == remote[i]);
                    } else {
                        assert(table[i] == row_of(again[i - kept]));
                        assert(tail[i - kept] == remote[i]);
                    }
                }
            }
        }
    }
}

/// Without an obstacle every candidate has a local counterpart.
proof fn lemma_redo_candidates_exist(local: Seq<MigrationView>, candidates: Seq<MigrationView>)
    requires
        redo_obstacle(local, candidates) is None,
    ensures
        forall|i: int|
            0 <= i < candidates.len() ==> has_name(local, (#[trigger] candidates[i]).compound_name),
    decreases candidates.len(),
{
    if candidates.len() > 0 {
        let rest = candidates.drop_first();
        lemma_redo_candidates_exist(local, rest);
        assert forall|i: int| 0 <= i < candidates.len() implies has_name(
            local,
            (#[trigger] candidates[i]).compound_name,
        ) by {
            if i > 0 {
                assert(candidates[i] == rest[i - 1]);
            }
        }
    }
}

/// The names of the rows of a table, in order.
pub open spec fn row_names(table: Seq<RowView>) -> Seq<Seq<char>> {
    table.map_values(|r: RowView| r.name)
}

/// A unit that holds one statement runs as that statement does.
proof fn lemma_run_single(table: Seq<RowView>, statement: StatementView, broken: Seq<Seq<char>>)
    ensures
        run_units(table, single(statement), broken) == match after_statement(
            table,
            statement,
            broken,
        ) {
            Some(next) => Outcome { table: next, done: true },
            None => Outcome { table, done: false },
        },
{
    let units = single(statement);
    assert(units.drop_first().len() == 0);
    assert(units[0].statements.drop_first().len() == 0);
    reveal_with_fuel(run_units, 2);
    reveal_with_fuel(run_statements, 2);
}

/// The first pending rollup is a local rollup that the database does not
/// record.
proof fn lemma_pending_rollup(local: Seq<MigrationView>, remote: Seq<MigrationView>)
    ensures
        first_pending_rollup(local, remote) matches Some(rollup) ==> local.contains(rollup)
            && !has_name(remote, rollup.compound_name),
    decreases local.len(),
{
    if local.len() > 0 {
        if is_rollup(local[0]) && !has_name(remote, local[0].compound_name) {
            assert(local[0] == local[0]);
        } else {
            let rest = local.drop_first();
            lemma_pending_rollup(rest, remote);
            if let Some(rollup) = first_pending_rollup(rest, remote) {
                let k = choose|k: int| 0 <= k < rest.len() && rest[k] == rollup;
                assert(local[k + 1] == rollup);
            }
        }
    }
}

/// Where the rollup sync takes a rollup as baseline, clearing the table and
/// then recording the baseline both succeed, whatever scripts the database
/// refuses, and leave the rows of the records that `up` plans over: the
/// oldest row, then the row of the rollup without a reverting script.
pub proof fn law_sync_leaves_baseline(
    local: Seq<MigrationView>,
    remote: Seq<MigrationView>,
    broken: Seq<Seq<char>>,
)
    ensures
        rollup_sync(local, remote) matches Ok(Some(rollup)) ==> {
            let cleared = run_units(recorded(remote), single(StatementView::Clear), broken);
            let synced = run_units(
                cleared.table,
                single(
                    StatementView::Baseline { name: rollup.compound_name, hash: rollup.hash },
                ),
                broken,
            );
            &&& cleared == (Outcome { table: recorded(remote.take(1)), done: true })
            &&& synced == (Outcome {
                table: recorded(synced_records(local, remote)),
                done: true,
            })
        },
{
    if let Ok(Some(rollup)) = rollup_sync(local, remote) {
        lemma_pending_rollup(local, remote);
        let first = recorded(remote.take(1));
        lemma_run_single(recorded(remote), StatementView::Clear, broken);
        assert(oldest(recorded(remote)) =~= first);
        lemma_run_single(
            first,
            StatementView::Baseline { name: rollup.compound_name, hash: rollup.hash },
            broken,
        );
        if holds(first, rollup.compound_name) {
            let k = choose|k: int|
                0 <= k < first.len() && (#[trigger] first[k]).name == rollup.compound_name;
            assert(remote[k].compound_name == rollup.compound_name);
        }
        assert(first.push(
            RowView { name: rollup.compound_name, hash: rollup.hash, down_sql: None },
        ) =~= recorded(after_sync(remote, rollup)));
    }
}

/// Where the script of a migration fails, applying the migration fails and
/// leaves the table as it was, with or without a transaction: no row is
/// recorded. The outcome is that of the first unit alone: the seed is not
/// run.
pub proof fn law_failed_body_leaves_no_row(
    table: Seq<RowView>,
    m: MigrationView,
    broken: Seq<Seq<char>>,
)
    requires
        m.up_sql matches Some(body) && broken.contains(body),
    ensures
        run_units(table, up_script(m), broken) == (Outcome { table, done: false }),
        run_units(table, up_script(m), broken) == run_unit(table, up_script(m)[0], broken),
{
    reveal_with_fuel(run_units, 2);
    reveal_with_fuel(run_statements, 2);
}

/// Where the script of a migration runs and its seed fails, applying the
/// migration fails and leaves the row of the migration in the table: the
/// migration stays recorded as applied.
pub proof fn law_failed_seed_leaves_row(
    table: Seq<RowView>,
    m: MigrationView,
    broken: Seq<Seq<char>>,
)
    requires
        m.up_sql matches Some(body) && !broken.contains(body),
        m.seed_sql matches Some(seed) && broken.contains(seed),
        !holds(table, m.compound_name),
    ensures
        run_units(table, up_script(m), broken) == (Outcome {
            table: table.push(row_of(m)),
            done: false,
        }),
{
    let script = up_script(m);
    let main = script[0];
    let rest = main.statements.drop_first();
    assert(rest[0] == main.statements[1]);
    assert(rest.drop_first().len() == 0);
    let seeding = script.drop_first();
    assert(seeding[0] == script[1]);
    assert(seeding.drop_first().len() == 0);
    assert(seeding[0].statements.drop_first().len() == 0);
    reveal_with_fuel(run_units, 3);
    reveal_with_fuel(run_statements, 3);
}

/// Where reverting script of a migration fails, reverting the migration
/// fails and leaves the table as it was: the row is not deleted.
pub proof fn law_failed_revert_keeps_row(
    table: Seq<RowView>,
    m: MigrationView,
    broken: Seq<Seq<char>>,
)
    requires
        m.down_sql matches Some(body) && broken.contains(body),
    ensures
        run_units(table, down_script(m), broken) == (Outcome { table, done: false }),
{
    reveal_with_fuel(run_units, 2);
    reveal_with_fuel(run_statements, 2);
}

/// Units are run up to the first that fails: what follows it changes
/// nothing.
pub proof fn law_units_halt_at_failure(
    table: Seq<RowView>,
    units: Seq<UnitView>,
    broken: Seq<Seq<char>>,
    upto: int,
)
    requires
        0 <= upto <= units.len(),
        !run_units(table, units.take(upto), broken).done,
    ensures
        run_units(table, units, broken) == run_units(table, units.take(upto), broken),
    decreases units.len(),
{
    let head = units.take(upto);
    if upto > 0 {
        assert(head[0] == units[0]);
        let first = run_unit(table, units[0], broken);
        if first.done {
            assert(head.drop_first() =~= units.drop_first().take(upto - 1));
            law_units_halt_at_failure(first.table, units.drop_first(), broken, upto - 1);
        }
    }
}

/// A plan is carried out up to the first step that fails: what follows it
/// changes nothing, and the steps before it stand.
pub proof fn law_plan_halts_at_failure(
    table: Seq<RowView>,
    steps: Seq<StepView>,
    broken: Seq<Seq<char>>,
    upto: int,
)
    requires
        0 <= upto <= steps.len(),
        !run_plan(table, steps.take(upto), broken).done,
    ensures
        run_plan(table, steps, broken) == run_plan(table, steps.take(upto), broken),
    decreases steps.len(),
{
    let head = steps.take(upto);
    if upto > 0 {
        assert(head[0] == steps[0]);
        let first = run_units(table, step_script(steps[0]), broken);
        if first.done {
            assert(head.drop_first() =~= steps.drop_first().take(upto - 1));
            law_plan_halts_at_failure(first.table, steps.drop_first(), broken, upto - 1);
        }
    }
}

/// Whether one of the units runs the script.
pub open spec fn runs_script(units: Seq<UnitView>, script: Seq<char>) -> bool {
    exists|i: int, j: int|
        0 <= i < units.len() && 0 <= j < units[i].statements.len()
            && #[trigger] units[i].statements[j] == StatementView::Run(script)
}

/// Whether the statement is none of the refused scripts.
pub open spec fn is_sound(statement: StatementView, broken: Seq<Seq<char>>) -> bool {
    match statement {
        StatementView::Run(script) => !broken.contains(script),
        _ => true,
    }
}

/// Statements that run no refused script run as where no script fails.
proof fn lemma_sound_statements(
    table: Seq<RowView>,
    statements: Seq<StatementView>,
    broken: Seq<Seq<char>>,
)
    requires
        forall|j: int| 0 <= j < statements.len() ==> is_sound(#[trigger] statements[j], broken),
    ensures
        run_statements(table, statements, broken) == run_statements(table, statements, unbroken()),
    decreases statements.len(),
{
    if statements.len() > 0 {
        let rest = statements.drop_first();
        assert forall|j: int| 0 <= j < rest.len() implies is_sound(#[trigger] rest[j], broken) by {
            assert(statements[j + 1] == rest[j]);
        }
        assert(is_sound(statements[0], broken));
        if let Some(next) = after_statement(table, statements[0], broken) {
            lemma_sound_statements(next, rest, broken);
        }
    }
}

/// Units run as where no script fails, provided that they run none of the
/// scripts that the database refuses: what is proved of units and plans
/// where no script fails holds of every database that takes their scripts.
pub proof fn law_sound_scripts_run_alike(
    table: Seq<RowView>,
    units: Seq<UnitView>,
    broken: Seq<Seq<char>>,
)
    requires
        forall|script: Seq<char>| #[trigger] broken.contains(script) ==> !runs_script(units, script),
    ensures
        run_units(table, units, broken) == run_units(table, units, unbroken()),
    decreases units.len(),
{
    if units.len() > 0 {
        let rest = units.drop_first();
        assert forall|j: int| 0 <= j < units[0].statements.len() implies is_sound(
            #[trigger] units[0].statements[j],
            broken,
        ) by {
            if let StatementView::Run(script) = units[0].statements[j] {
                if broken.contains(script) {
                    assert(runs_script(units, script));
                }
            }
        }
        lemma_sound_statements(table, units[0].statements, broken);
        assert forall|script: Seq<char>| #[trigger] broken.contains(script) implies !runs_script(
            rest,
            script,
        ) by {
            if runs_script(rest, script) {
                let (i, j) = choose|i: int, j: int|
                    0 <= i < rest.len() && 0 <= j < rest[i].statements.len()
                        && #[trigger] rest[i].statements[j] == StatementView::Run(script);
                assert(units[i + 1].statements[j] == StatementView::Run(script));
            }
        }
        let first = run_unit(table, units[0], unbroken());
        law_sound_scripts_run_alike(first.table, rest, broken);
    }
}

} // verus!
