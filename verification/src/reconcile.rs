//! What each planning operation yields, as mathematics over the local and the
//! remote sequence of migrations.

use vstd::prelude::*;
use crate::error::PlanErrorView;
use crate::migration::{MigrationView, has_name, find_by_name};
use crate::plan::{MigrationState, StatusView, StepView, ups, downs};
use crate::text::name_lt;

verus! {

/// The entry for a migration found on both sides.
pub open spec fn matched(local: MigrationView, remote: MigrationView) -> StatusView {
    StatusView {
        state: if local.hash == remote.hash {
            MigrationState::Applied
        } else {
            MigrationState::Variant
        },
        migration: local,
    }
}

/// The entry for a migration found only locally.
pub open spec fn only_local(m: MigrationView) -> StatusView {
    StatusView { state: MigrationState::Pending, migration: m }
}

/// The entry for a migration found only in the database.
pub open spec fn only_remote(m: MigrationView) -> StatusView {
    StatusView { state: MigrationState::Divergent, migration: m }
}

/// The status listing: a merge of the two sequences by compound name. Equal
/// heads give one entry and both advance; otherwise the head that sorts first
/// gives an entry and its side advances; what is left of one side is drained.
pub open spec fn status_walk(local: Seq<MigrationView>, remote: Seq<MigrationView>) -> Seq<
    StatusView,
>
    decreases local.len() + remote.len(),
{
    if local.len() > 0 && remote.len() > 0 {
        if local[0].compound_name == remote[0].compound_name {
            seq![matched(local[0], remote[0])] + status_walk(
                local.drop_first(),
                remote.drop_first(),
            )
        } else if name_lt(local[0].compound_name, remote[0].compound_name) {
            seq![only_local(local[0])] + status_walk(local.drop_first(), remote)
        } else {
            seq![only_remote(remote[0])] + status_walk(local, remote.drop_first())
        }
    } else if local.len() > 0 {
        seq![only_local(local[0])] + status_walk(local.drop_first(), remote)
    } else if remote.len() > 0 {
        seq![only_remote(remote[0])] + status_walk(local, remote.drop_first())
    } else {
        Seq::empty()
    }
}

/// The migrations whose compound name does not occur in `other`.
pub open spec fn absent_from(other: Seq<MigrationView>) -> spec_fn(MigrationView) -> bool {
    |m: MigrationView| !has_name(other, m.compound_name)
}

/// The first `count` elements of `s`, or all of `s` where there is no count
/// or fewer elements.
pub open spec fn capped(s: Seq<MigrationView>, count: Option<usize>) -> Seq<MigrationView> {
    match count {
        Some(n) => if n < s.len() {
            s.take(n as int)
        } else {
            s
        },
        None => s,
    }
}

/// Whether `m` is reserved as a rollup.
pub open spec fn is_rollup(m: MigrationView) -> bool {
    m.name == "rollup"@
}

/// Whether `m` is reserved as the initial migration.
pub open spec fn is_init(m: MigrationView) -> bool {
    m.name == "init"@
}

/// The first local rollup that the database does not record.
pub open spec fn first_pending_rollup(
    local: Seq<MigrationView>,
    remote: Seq<MigrationView>,
) -> Option<MigrationView>
    decreases local.len(),
{
    if local.len() == 0 {
        None
    } else if is_rollup(local[0]) && !has_name(remote, local[0].compound_name) {
        Some(local[0])
    } else {
        first_pending_rollup(local.drop_first(), remote)
    }
}

/// Whether `m` is an ordinary local migration that sorts before `rollup` and
/// has not been applied.
pub open spec fn precedes_rollup(
    m: MigrationView,
    rollup: MigrationView,
    remote: Seq<MigrationView>,
) -> bool {
    &&& !is_init(m)
    &&& !is_rollup(m)
    &&& !has_name(remote, m.compound_name)
    &&& name_lt(m.compound_name, rollup.compound_name)
}

/// Whether `m` is a remote record, other than the initial one, that the local
/// set does not know.
pub open spec fn unknown_locally(m: MigrationView, local: Seq<MigrationView>) -> bool {
    !is_init(m) && !has_name(local, m.compound_name)
}

/// What has to happen to the database before an `up` plan is made: nothing
/// (`Ok(None)`), or the history is replaced by the given rollup as baseline.
pub open spec fn rollup_sync(local: Seq<MigrationView>, remote: Seq<MigrationView>) -> Result<
    Option<MigrationView>,
    PlanErrorView,
> {
    match first_pending_rollup(local, remote) {
        None => Ok(None),
        Some(rollup) => {
            if exists|i: int|
                0 <= i < local.len() && precedes_rollup(#[trigger] local[i], rollup, remote) {
                Err(PlanErrorView::PendingBeforeRollup)
            } else if exists|i: int|
                0 <= i < remote.len() && unknown_locally(#[trigger] remote[i], local) {
                Err(PlanErrorView::RollupOutOfSync)
            } else if remote.len() == 0 {
                Ok(None)
            } else {
                Ok(Some(rollup))
            }
        },
    }
}

/// The local migrations that the database does not record, in local order.
pub open spec fn pending(local: Seq<MigrationView>, remote: Seq<MigrationView>) -> Seq<
    MigrationView,
> {
    local.filter(absent_from(remote))
}

/// The steps of an `up` plan.
pub open spec fn up_steps(
    local: Seq<MigrationView>,
    remote: Seq<MigrationView>,
    count: Option<usize>,
) -> Seq<StepView> {
    ups(capped(pending(local, remote), count))
}

/// The record that stands for `rollup` once it is taken as baseline: its
/// names and its hash, and no script.
pub open spec fn baseline_of(rollup: MigrationView) -> MigrationView {
    MigrationView { up_sql: None, down_sql: None, seed_sql: None, ..rollup }
}

/// The records as the rollup sync leaves them: the oldest record, then the
/// baseline of `rollup`.
pub open spec fn after_sync(remote: Seq<MigrationView>, rollup: MigrationView) -> Seq<
    MigrationView,
> {
    remote.take(1).push(baseline_of(rollup))
}

/// The records that an `up` plan is made over: the records as they stand,
/// or, where the rollup sync takes a rollup as baseline, as the sync leaves
/// them.
pub open spec fn synced_records(local: Seq<MigrationView>, remote: Seq<MigrationView>) -> Seq<
    MigrationView,
> {
    match rollup_sync(local, remote) {
        Ok(Some(rollup)) => after_sync(remote, rollup),
        _ => remote,
    }
}

/// The `up` plan: refused as the rollup sync is refused, and made over the
/// records as the sync leaves them.
pub open spec fn up_plan(
    local: Seq<MigrationView>,
    remote: Seq<MigrationView>,
    count: Option<usize>,
) -> Result<Seq<StepView>, PlanErrorView> {
    match rollup_sync(local, remote) {
        Err(e) => Err(e),
        Ok(_) => Ok(up_steps(local, synced_records(local, remote), count)),
    }
}

/// The remote migrations that `down` may roll back.
pub open spec fn may_roll_back(local: Seq<MigrationView>, ignore_divergent: bool) -> spec_fn(
    MigrationView,
) -> bool {
    |m: MigrationView| ignore_divergent || has_name(local, m.compound_name)
}

/// The first migration of `s` without a `down.sql`.
pub open spec fn first_unreversible(s: Seq<MigrationView>) -> Option<MigrationView>
    decreases s.len(),
{
    if s.len() == 0 {
        None
    } else if s[0].down_sql is None {
        Some(s[0])
    } else {
        first_unreversible(s.drop_first())
    }
}

/// The migrations that a `down` plan rolls back, most recent first.
pub open spec fn down_candidates(
    local: Seq<MigrationView>,
    remote: Seq<MigrationView>,
    count: Option<usize>,
    ignore_divergent: bool,
) -> Seq<MigrationView> {
    capped(remote.filter(may_roll_back(local, ignore_divergent)).reverse(), count)
}

/// The `down` plan.
pub open spec fn down_plan(
    local: Seq<MigrationView>,
    remote: Seq<MigrationView>,
    count: Option<usize>,
    ignore_divergent: bool,
    ignore_unreversible: bool,
) -> Result<Seq<StepView>, PlanErrorView> {
    let candidates = down_candidates(local, remote, count, ignore_divergent);
    if first_pending_rollup(local, remote) is Some {
        Err(PlanErrorView::RollupOutOfSync)
    } else if !ignore_unreversible && first_unreversible(candidates) is Some {
        Err(PlanErrorView::UnreversibleRollback(first_unreversible(candidates)->0.compound_name))
    } else {
        Ok(downs(candidates))
    }
}

/// The remote migrations that `redo` considers.
pub open spec fn may_redo(
    local: Seq<MigrationView>,
    ignore_divergent: bool,
    ignore_unreversible: bool,
) -> spec_fn(MigrationView) -> bool {
    |m: MigrationView|
        {
            &&& !is_init(m)
            &&& !is_rollup(m)
            &&& (ignore_divergent || has_name(local, m.compound_name))
            &&& (!ignore_unreversible || m.down_sql is Some)
        }
}

/// The migrations that a `redo` plan takes down and up again, most recent first.
pub open spec fn redo_candidates(
    local: Seq<MigrationView>,
    remote: Seq<MigrationView>,
    count: Option<usize>,
    ignore_divergent: bool,
    ignore_unreversible: bool,
) -> Seq<MigrationView> {
    capped(
        remote.filter(may_redo(local, ignore_divergent, ignore_unreversible)).reverse(),
        count,
    )
}

/// Why the first candidate that cannot be redone cannot: it has no
/// `down.sql`, or it does not exist locally.
pub open spec fn redo_obstacle(local: Seq<MigrationView>, candidates: Seq<MigrationView>) -> Option<
    PlanErrorView,
>
    decreases candidates.len(),
{
    if candidates.len() == 0 {
        None
    } else if candidates[0].down_sql is None {
        Some(PlanErrorView::UnreversibleRedo(candidates[0].compound_name))
    } else if !has_name(local, candidates[0].compound_name) {
        Some(PlanErrorView::DivergentRedo(candidates[0].compound_name))
    } else {
        redo_obstacle(local, candidates.drop_first())
    }
}

/// The local migration of the same compound name, for each of `s`.
pub open spec fn counterparts(local: Seq<MigrationView>, s: Seq<MigrationView>) -> Seq<
    MigrationView,
> {
    s.map_values(|m: MigrationView| find_by_name(local, m.compound_name)->0)
}

/// The `redo` plan: the candidates down, most recent first, then their local
/// counterparts up in the opposite order.
pub open spec fn redo_plan(
    local: Seq<MigrationView>,
    remote: Seq<MigrationView>,
    count: Option<usize>,
    ignore_divergent: bool,
    ignore_unreversible: bool,
) -> Result<Seq<StepView>, PlanErrorView> {
    let candidates = redo_candidates(local, remote, count, ignore_divergent, ignore_unreversible);
    if first_pending_rollup(local, remote) is Some {
        Err(PlanErrorView::RollupOutOfSync)
    } else if redo_obstacle(local, candidates) is Some {
        Err(redo_obstacle(local, candidates)->0)
    } else {
        Ok(downs(candidates) + ups(counterparts(local, candidates).reverse()))
    }
}

/// Whether the local set holds `m` under the same hash.
pub open spec fn agrees(local: Seq<MigrationView>, m: MigrationView) -> bool {
    match find_by_name(local, m.compound_name) {
        Some(l) => l.hash == m.hash,
        None => false,
    }
}

/// The length of the longest prefix of `remote` whose every record the local
/// set holds under the same hash.
pub open spec fn agreeing_prefix(local: Seq<MigrationView>, remote: Seq<MigrationView>) -> nat
    decreases remote.len(),
{
    if remote.len() == 0 || !agrees(local, remote[0]) {
        0
    } else {
        1 + agreeing_prefix(local, remote.drop_first())
    }
}

/// The `fix` plan: what follows the agreeing prefix goes down, most recent
/// first; then every local migration not in that prefix goes up.
pub open spec fn fix_plan(local: Seq<MigrationView>, remote: Seq<MigrationView>) -> Result<
    Seq<StepView>,
    PlanErrorView,
> {
    let kept = agreeing_prefix(local, remote) as int;
    let back = remote.skip(kept).reverse();
    if first_pending_rollup(local, remote) is Some {
        Err(PlanErrorView::RollupOutOfSync)
    } else if first_unreversible(back) is Some {
        Err(PlanErrorView::UnreversibleRollback(first_unreversible(back)->0.compound_name))
    } else {
        Ok(downs(back) + ups(local.filter(absent_from(remote.take(kept)))))
    }
}

} // verus!
