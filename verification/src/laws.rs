//! Properties of the status listing and of the plans, proved from their
//! definitions.

use vstd::prelude::*;
use crate::migration::{MigrationView, has_name, lemma_find_by_name};
use crate::plan::{MigrationState, StatusView, StepView, ups, downs};
use crate::error::PlanErrorView;
use crate::reconcile::{
    status_walk, absent_from, capped, pending, up_steps, may_roll_back, down_candidates,
    may_redo, redo_candidates, redo_obstacle, counterparts, redo_plan, down_plan, up_plan,
    fix_plan, rollup_sync, synced_records, baseline_of,
};
use crate::text::{name_lt, lemma_name_lt_transitive, lemma_name_lt_trichotomy};

verus! {

/// Whether the compound names of `s` strictly ascend.
pub open spec fn ascending(s: Seq<MigrationView>) -> bool {
    forall|i: int, j: int|
        0 <= i < j < s.len() ==> name_lt(
            (#[trigger] s[i]).compound_name,
            (#[trigger] s[j]).compound_name,
        )
}

/// Whether the compound names of `s` strictly descend.
pub open spec fn descending(s: Seq<MigrationView>) -> bool {
    forall|i: int, j: int|
        0 <= i < j < s.len() ==> name_lt(
            (#[trigger] s[j]).compound_name,
            (#[trigger] s[i]).compound_name,
        )
}

/// How many entries of `entries` are about the compound name `name`.
pub open spec fn occurrences(entries: Seq<StatusView>, name: Seq<char>) -> nat
    decreases entries.len(),
{
    if entries.len() == 0 {
        0
    } else if entries[0].migration.compound_name == name {
        1 + occurrences(entries.drop_first(), name)
    } else {
        occurrences(entries.drop_first(), name)
    }
}

/// In an ascending sequence the first name occurs once, and what follows it
/// ascends and holds only later names.
proof fn lemma_ascending_head(s: Seq<MigrationView>)
    requires
        ascending(s),
        s.len() > 0,
    ensures
        ascending(s.drop_first()),
        !has_name(s.drop_first(), s[0].compound_name),
        forall|name: Seq<char>|
            has_name(s, name) <==> (s[0].compound_name == name || has_name(s.drop_first(), name)),
        forall|name: Seq<char>| #[trigger]
            has_name(s.drop_first(), name) ==> name_lt(s[0].compound_name, name),
{
    let t = s.drop_first();
    assert forall|i: int, j: int| 0 <= i < j < t.len() implies name_lt(
        (#[trigger] t[i]).compound_name,
        (#[trigger] t[j]).compound_name,
    ) by {
        assert(t[i] == s[i + 1] && t[j] == s[j + 1]);
    }
    assert forall|name: Seq<char>| #[trigger] has_name(t, name) implies name_lt(
        s[0].compound_name,
        name,
    ) by {
        let k = choose|k: int| 0 <= k < t.len() && (#[trigger] t[k]).compound_name == name;
        assert(t[k] == s[k + 1]);
    }
    if has_name(t, s[0].compound_name) {
        lemma_name_lt_trichotomy(s[0].compound_name, s[0].compound_name);
    }
    assert forall|name: Seq<char>|
        has_name(s, name) <==> (s[0].compound_name == name || has_name(t, name)) by {
        if has_name(s, name) {
            let k = choose|k: int| 0 <= k < s.len() && (#[trigger] s[k]).compound_name == name;
            if k > 0 {
                assert(t[k - 1] == s[k]);
            }
        }
        if has_name(t, name) {
            let k = choose|k: int| 0 <= k < t.len() && (#[trigger] t[k]).compound_name == name;
            assert(s[k + 1] == t[k]);
        }
    }
}

/// No name occurs in an empty sequence.
proof fn lemma_empty_has_no_name(s: Seq<MigrationView>)
    requires
        s.len() == 0,
    ensures
        forall|name: Seq<char>| !has_name(s, name),
{
}

/// How often the status listing speaks of one name.
proof fn lemma_status_occurrences(
    local: Seq<MigrationView>,
    remote: Seq<MigrationView>,
    name: Seq<char>,
)
    requires
        ascending(local),
        ascending(remote),
    ensures
        occurrences(status_walk(local, remote), name) == if has_name(local, name) || has_name(
            remote,
            name,
        ) {
            1nat
        } else {
            0nat
        },
    decreases local.len() + remote.len(),
{
    let walk = status_walk(local, remote);
    if local.len() > 0 {
        lemma_ascending_head(local);
        assert(has_name(local, name) <==> (local[0].compound_name == name || has_name(
            local.drop_first(),
            name,
        )));
    } else {
        lemma_empty_has_no_name(local);
    }
    if remote.len() > 0 {
        lemma_ascending_head(remote);
        assert(has_name(remote, name) <==> (remote[0].compound_name == name || has_name(
            remote.drop_first(),
            name,
        )));
    } else {
        lemma_empty_has_no_name(remote);
    }
    if local.len() > 0 && remote.len() > 0 {
        let l = local[0].compound_name;
        let r = remote[0].compound_name;
        lemma_name_lt_trichotomy(l, r);
        lemma_name_lt_trichotomy(l, l);
        lemma_name_lt_trichotomy(r, r);
        if l == r {
            lemma_status_occurrences(local.drop_first(), remote.drop_first(), name);
            assert(walk.drop_first() =~= status_walk(local.drop_first(), remote.drop_first()));
        } else if name_lt(l, r) {
            lemma_status_occurrences(local.drop_first(), remote, name);
            assert(walk.drop_first() =~= status_walk(local.drop_first(), remote));
            if name == l && has_name(remote.drop_first(), l) {
                lemma_name_lt_transitive(l, r, l);
            }
        } else {
            lemma_status_occurrences(local, remote.drop_first(), name);
            assert(walk.drop_first() =~= status_walk(local, remote.drop_first()));
            if name == r && has_name(local.drop_first(), r) {
                lemma_name_lt_transitive(r, l, r);
            }
        }
    } else if local.len() > 0 {
        lemma_status_occurrences(local.drop_first(), remote, name);
        assert(walk.drop_first() =~= status_walk(local.drop_first(), remote));
    } else if remote.len() > 0 {
        lemma_status_occurrences(local, remote.drop_first(), name);
        assert(walk.drop_first() =~= status_walk(local, remote.drop_first()));
    }
}

/// The status listing has exactly one entry for each compound name that
/// occurs locally or in the database, and none for any other name, provided
/// that both sequences ascend by compound name.
pub proof fn law_status_one_entry_per_name(
    local: Seq<MigrationView>,
    remote: Seq<MigrationView>,
)
    requires
        ascending(local),
        ascending(remote),
    ensures
        forall|name: Seq<char>| #[trigger]
            occurrences(status_walk(local, remote), name) == if has_name(local, name) || has_name(
                remote,
                name,
            ) {
                1nat
            } else {
                0nat
            },
{
    assert forall|name: Seq<char>| #[trigger]
        occurrences(status_walk(local, remote), name) == if has_name(local, name) || has_name(
            remote,
            name,
        ) {
            1nat
        } else {
            0nat
        } by {
        lemma_status_occurrences(local, remote, name);
    }
}

/// Whether the database records the compound name `name` under `hash`.
pub open spec fn recorded_as(remote: Seq<MigrationView>, name: Seq<char>, hash: Seq<char>) -> bool {
    exists|j: int|
        0 <= j < remote.len() && (#[trigger] remote[j]).compound_name == name && remote[j].hash
            == hash
}

/// Whether the database records the compound name `name` under another hash
/// than `hash`.
pub open spec fn recorded_otherwise(
    remote: Seq<MigrationView>,
    name: Seq<char>,
    hash: Seq<char>,
) -> bool {
    exists|j: int|
        0 <= j < remote.len() && (#[trigger] remote[j]).compound_name == name && remote[j].hash
            != hash
}

/// Whether the entry says of its migration what the two sides hold: applied
/// and variant migrations are local ones that the database records under the
/// same and under another hash, a pending one is local and not recorded, and
/// a divergent one is a record whose name does not exist locally.
pub open spec fn classified(
    entry: StatusView,
    local: Seq<MigrationView>,
    remote: Seq<MigrationView>,
) -> bool {
    let m = entry.migration;
    match entry.state {
        MigrationState::Applied => local.contains(m) && recorded_as(
            remote,
            m.compound_name,
            m.hash,
        ),
        MigrationState::Variant => local.contains(m) && recorded_otherwise(
            remote,
            m.compound_name,
            m.hash,
        ),
        MigrationState::Pending => local.contains(m) && !has_name(remote, m.compound_name),
        MigrationState::Divergent => remote.contains(m) && !has_name(local, m.compound_name),
    }
}

/// What holds of an entry for the tails of two sequences holds for the
/// sequences, where the heads that were dropped sort before the entry.
proof fn lemma_classified_grows(
    entry: StatusView,
    local: Seq<MigrationView>,
    remote: Seq<MigrationView>,
    drop_local: bool,
    drop_remote: bool,
)
    requires
        drop_local ==> local.len() > 0,
        drop_remote ==> remote.len() > 0,
        classified(
            entry,
            if drop_local {
                local.drop_first()
            } else {
                local
            },
            if drop_remote {
                remote.drop_first()
            } else {
                remote
            },
        ),
        drop_local ==> name_lt(local[0].compound_name, entry.migration.compound_name),
        drop_remote ==> name_lt(remote[0].compound_name, entry.migration.compound_name),
    ensures
        classified(entry, local, remote),
{
    let m = entry.migration;
    let name = m.compound_name;
    lemma_name_lt_trichotomy(name, name);
    if drop_local {
        let tail = local.drop_first();
        if tail.contains(m) {
            let k = choose|k: int| 0 <= k < tail.len() && tail[k] == m;
            assert(local[k + 1] == m);
        }
        if has_name(local, name) {
            let k = choose|k: int| 0 <= k < local.len() && (#[trigger] local[k]).compound_name == name;
            assert(k > 0);
            assert(tail[k - 1] == local[k]);
        }
    }
    if drop_remote {
        let tail = remote.drop_first();
        if tail.contains(m) {
            let k = choose|k: int| 0 <= k < tail.len() && tail[k] == m;
            assert(remote[k + 1] == m);
        }
        if has_name(remote, name) {
            let k = choose|k: int|
                0 <= k < remote.len() && (#[trigger] remote[k]).compound_name == name;
            assert(k > 0);
            assert(tail[k - 1] == remote[k]);
        }
        if recorded_as(tail, name, m.hash) {
            let k = choose|k: int|
                0 <= k < tail.len() && (#[trigger] tail[k]).compound_name == name && tail[k].hash
                    == m.hash;
            assert(remote[k + 1] == tail[k]);
        }
        if recorded_otherwise(tail, name, m.hash) {
            let k = choose|k: int|
                0 <= k < tail.len() && (#[trigger] tail[k]).compound_name == name && tail[k].hash
                    != m.hash;
            assert(remote[k + 1] == tail[k]);
        }
    }
}

/// The entry at one position of the status listing is classified, and its
/// name is one of the two sides.
proof fn lemma_status_entry(local: Seq<MigrationView>, remote: Seq<MigrationView>, i: int)
    requires
        ascending(local),
        ascending(remote),
        0 <= i < status_walk(local, remote).len(),
    ensures
        classified(status_walk(local, remote)[i], local, remote),
        has_name(local, status_walk(local, remote)[i].migration.compound_name) || has_name(
            remote,
            status_walk(local, remote)[i].migration.compound_name,
        ),
    decreases local.len() + remote.len(),
{
    let walk = status_walk(local, remote);
    let entry = walk[i];
    let name = entry.migration.compound_name;
    if local.len() > 0 {
        lemma_ascending_head(local);
        assert(local[0] == local[0]);
    }
    if remote.len() > 0 {
        lemma_ascending_head(remote);
        assert(remote[0] == remote[0]);
    }
    let both = local.len() > 0 && remote.len() > 0;
    let same = both && local[0].compound_name == remote[0].compound_name;
    let local_first = both && !same && name_lt(local[0].compound_name, remote[0].compound_name);
    let drop_local = local.len() > 0 && (!both || same || local_first);
    let drop_remote = remote.len() > 0 && (!both && local.len() == 0 || same || both && !same
        && !local_first);
    if both {
        lemma_name_lt_trichotomy(local[0].compound_name, remote[0].compound_name);
    }
    let next_local = if drop_local {
        local.drop_first()
    } else {
        local
    };
    let next_remote = if drop_remote {
        remote.drop_first()
    } else {
        remote
    };
    assert(walk.drop_first() =~= status_walk(next_local, next_remote));
    if i == 0 {
        if drop_local {
            assert(local.contains(local[0]));
            if has_name(remote, local[0].compound_name) && !same {
                let k = choose|k: int|
                    0 <= k < remote.len() && (#[trigger] remote[k]).compound_name
                        == local[0].compound_name;
                lemma_name_lt_trichotomy(local[0].compound_name, local[0].compound_name);
                if k > 0 {
                    assert(remote.drop_first()[k - 1] == remote[k]);
                    assert(has_name(remote.drop_first(), local[0].compound_name));
                    lemma_name_lt_transitive(
                        local[0].compound_name,
                        remote[0].compound_name,
                        local[0].compound_name,
                    );
                }
            }
        } else {
            assert(remote.contains(remote[0]));
            if has_name(local, remote[0].compound_name) {
                let k = choose|k: int|
                    0 <= k < local.len() && (#[trigger] local[k]).compound_name
                        == remote[0].compound_name;
                lemma_name_lt_trichotomy(remote[0].compound_name, remote[0].compound_name);
                if k > 0 {
                    assert(local.drop_first()[k - 1] == local[k]);
                    assert(has_name(local.drop_first(), remote[0].compound_name));
                    lemma_name_lt_transitive(
                        remote[0].compound_name,
                        local[0].compound_name,
                        remote[0].compound_name,
                    );
                }
            }
        }
    } else {
        assert(walk[i] == walk.drop_first()[i - 1]);
        lemma_status_entry(next_local, next_remote, i - 1);
        if drop_local {
            if has_name(next_remote, name) && !has_name(next_local, name) && !drop_remote {
                if name == remote[0].compound_name {
                } else {
                    assert(has_name(remote.drop_first(), name));
                    lemma_name_lt_transitive(
                        local[0].compound_name,
                        remote[0].compound_name,
                        name,
                    );
                }
            } else if !has_name(next_local, name) {
                assert(has_name(remote.drop_first(), name));
            }
        }
        if drop_remote {
            if has_name(next_local, name) && !has_name(next_remote, name) && !drop_local {
                if name == local[0].compound_name {
                } else {
                    assert(has_name(local.drop_first(), name));
                    lemma_name_lt_transitive(
                        remote[0].compound_name,
                        local[0].compound_name,
                        name,
                    );
                }
            } else if !has_name(next_remote, name) {
                assert(has_name(local.drop_first(), name));
            }
        }
        lemma_classified_grows(entry, local, remote, drop_local, drop_remote);
    }
}

/// Every entry of the status listing says of its migration what the two
/// sides hold of it, provided that both sequences ascend by compound name.
pub proof fn law_status_classifies(local: Seq<MigrationView>, remote: Seq<MigrationView>)
    requires
        ascending(local),
        ascending(remote),
    ensures
        forall|i: int|
            0 <= i < status_walk(local, remote).len() ==> classified(
                #[trigger] status_walk(local, remote)[i],
                local,
                remote,
            ),
{
    assert forall|i: int| 0 <= i < status_walk(local, remote).len() implies classified(
        #[trigger] status_walk(local, remote)[i],
        local,
        remote,
    ) by {
        lemma_status_entry(local, remote, i);
    }
}

/// Whether the compound names of the entries strictly ascend.
pub open spec fn entries_ascend(entries: Seq<StatusView>) -> bool {
    forall|i: int, j: int|
        0 <= i < j < entries.len() ==> name_lt(
            (#[trigger] entries[i]).migration.compound_name,
            (#[trigger] entries[j]).migration.compound_name,
        )
}

/// Of two entries of the status listing the earlier has the earlier name.
proof fn lemma_status_pair(local: Seq<MigrationView>, remote: Seq<MigrationView>, i: int, j: int)
    requires
        ascending(local),
        ascending(remote),
        0 <= i < j < status_walk(local, remote).len(),
    ensures
        name_lt(
            status_walk(local, remote)[i].migration.compound_name,
            status_walk(local, remote)[j].migration.compound_name,
        ),
    decreases local.len() + remote.len(),
{
    let walk = status_walk(local, remote);
    if local.len() > 0 {
        lemma_ascending_head(local);
    }
    if remote.len() > 0 {
        lemma_ascending_head(remote);
    }
    let both = local.len() > 0 && remote.len() > 0;
    let same = both && local[0].compound_name == remote[0].compound_name;
    let local_first = both && !same && name_lt(local[0].compound_name, remote[0].compound_name);
    let drop_local = local.len() > 0 && (!both || same || local_first);
    let drop_remote = remote.len() > 0 && (!both && local.len() == 0 || same || both && !same
        && !local_first);
    if both {
        lemma_name_lt_trichotomy(local[0].compound_name, remote[0].compound_name);
    }
    let next_local = if drop_local {
        local.drop_first()
    } else {
        local
    };
    let next_remote = if drop_remote {
        remote.drop_first()
    } else {
        remote
    };
    let rest = status_walk(next_local, next_remote);
    assert(walk.drop_first() =~= rest);
    assert(walk[j] == rest[j - 1]);
    if i > 0 {
        assert(walk[i] == rest[i - 1]);
        lemma_status_pair(next_local, next_remote, i - 1, j - 1);
    } else {
        let head = walk[0].migration.compound_name;
        let name = walk[j].migration.compound_name;
        lemma_status_entry(next_local, next_remote, j - 1);
        if has_name(next_local, name) {
            if drop_local {
                assert(name_lt(local[0].compound_name, name));
            } else {
                assert(has_name(local, name));
                if name != local[0].compound_name {
                    assert(has_name(local.drop_first(), name));
                    lemma_name_lt_transitive(head, local[0].compound_name, name);
                }
            }
        } else {
            if drop_remote {
                assert(name_lt(remote[0].compound_name, name));
            } else {
                assert(has_name(remote, name));
                if name != remote[0].compound_name {
                    assert(has_name(remote.drop_first(), name));
                    lemma_name_lt_transitive(head, remote[0].compound_name, name);
                }
            }
        }
    }
}

/// The status listing ascends by compound name, provided that both
/// sequences do.
pub proof fn law_status_ascends(local: Seq<MigrationView>, remote: Seq<MigrationView>)
    requires
        ascending(local),
        ascending(remote),
    ensures
        entries_ascend(status_walk(local, remote)),
{
    let walk = status_walk(local, remote);
    assert forall|i: int, j: int| 0 <= i < j < walk.len() implies name_lt(
        (#[trigger] walk[i]).migration.compound_name,
        (#[trigger] walk[j]).migration.compound_name,
    ) by {
        lemma_status_pair(local, remote, i, j);
    }
}

/// The migrations that the steps of `steps` apply or revert, in order.
pub open spec fn step_migrations(steps: Seq<StepView>) -> Seq<MigrationView> {
    steps.map_values(|step: StepView| step.migration())
}

/// The compound names of `s`, in order.
pub open spec fn names(s: Seq<MigrationView>) -> Seq<Seq<char>> {
    s.map_values(|m: MigrationView| m.compound_name)
}

/// What is kept of a sequence satisfies the filter and comes from the sequence.
proof fn lemma_filtered(s: Seq<MigrationView>, keep: spec_fn(MigrationView) -> bool)
    ensures
        forall|i: int|
            0 <= i < s.filter(keep).len() ==> keep(#[trigger] s.filter(keep)[i]) && s.contains(
                s.filter(keep)[i],
            ),
{
    assert forall|i: int| 0 <= i < s.filter(keep).len() implies keep(#[trigger] s.filter(keep)[i])
        && s.contains(s.filter(keep)[i]) by {
        s.lemma_filter_pred(keep, i);
        assert(s.filter(keep).contains(s.filter(keep)[i]));
        s.lemma_filter_contains_rev(keep, s.filter(keep)[i]);
    }
}

/// Filtering an ascending sequence leaves an ascending sequence.
proof fn lemma_filter_keeps_ascending(s: Seq<MigrationView>, keep: spec_fn(MigrationView) -> bool)
    requires
        ascending(s),
    ensures
        ascending(s.filter(keep)),
    decreases s.len(),
{
    reveal(Seq::filter);
    if s.len() > 0 {
        let front = s.drop_last();
        assert forall|i: int, j: int| 0 <= i < j < front.len() implies name_lt(
            (#[trigger] front[i]).compound_name,
            (#[trigger] front[j]).compound_name,
        ) by {
            assert(front[i] == s[i] && front[j] == s[j]);
        }
        lemma_filter_keeps_ascending(front, keep);
        lemma_filtered(front, keep);
        let kept = front.filter(keep);
        if keep(s.last()) {
            let all = kept.push(s.last());
            assert forall|i: int, j: int| 0 <= i < j < all.len() implies name_lt(
                (#[trigger] all[i]).compound_name,
                (#[trigger] all[j]).compound_name,
            ) by {
                if j == kept.len() {
                    assert(front.contains(kept[i]));
                    let k = choose|k: int| 0 <= k < front.len() && front[k] == kept[i];
                    assert(s[k] == front[k]);
                    assert(s[s.len() - 1] == s.last());
                } else {
                    assert(all[i] == kept[i] && all[j] == kept[j]);
                }
            }
        }
    }
}

/// A capped sequence is a prefix of the sequence, no longer than the count.
proof fn lemma_capped(s: Seq<MigrationView>, count: Option<usize>)
    ensures
        capped(s, count).len() <= s.len(),
        count matches Some(n) ==> capped(s, count).len() <= n,
        forall|i: int| 0 <= i < capped(s, count).len() ==> #[trigger] capped(s, count)[i] == s[i],
{
}

/// Every step of an `up` plan applies a local migration whose compound name
/// is not recorded once the rollup sync is done, and the plan has no more
/// steps than the limit allows. Where the sync takes no baseline, these are
/// the records as they stand.
pub proof fn law_up_applies_pending_only(
    local: Seq<MigrationView>,
    remote: Seq<MigrationView>,
    count: Option<usize>,
)
    ensures
        up_plan(local, remote, count) matches Ok(steps) ==> {
            &&& count matches Some(n) ==> steps.len() <= n
            &&& forall|i: int|
                0 <= i < steps.len() ==> (#[trigger] steps[i]) is Up && local.contains(
                    steps[i].migration(),
                ) && !has_name(synced_records(local, remote), steps[i].migration().compound_name)
            &&& rollup_sync(local, remote) == Ok::<Option<MigrationView>, PlanErrorView>(None)
                ==> synced_records(local, remote) == remote
        },
{
    let records = synced_records(local, remote);
    let waiting = pending(local, records);
    lemma_filtered(local, absent_from(records));
    lemma_capped(waiting, count);
    let steps = up_steps(local, records, count);
    assert forall|i: int| 0 <= i < steps.len() implies (#[trigger] steps[i]) is Up
        && local.contains(steps[i].migration()) && !has_name(
        records,
        steps[i].migration().compound_name,
    ) by {
        assert(steps[i] == StepView::Up(capped(waiting, count)[i]));
        assert(absent_from(records)(waiting[i]));
    }
}

/// A rollup that the sync takes as baseline is recorded by the sync and is
/// no step of the `up` plan; the sync keeps the oldest record.
pub proof fn law_baseline_is_no_step(
    local: Seq<MigrationView>,
    remote: Seq<MigrationView>,
    count: Option<usize>,
)
    ensures
        rollup_sync(local, remote) matches Ok(Some(rollup)) ==> {
            &&& remote.len() > 0
            &&& synced_records(local, remote) == seq![remote[0], baseline_of(rollup)]
            &&& has_name(synced_records(local, remote), rollup.compound_name)
            &&& up_plan(local, remote, count) matches Ok(steps) && forall|i: int|
                0 <= i < steps.len() ==> (#[trigger] steps[i]).migration().compound_name
                    != rollup.compound_name
        },
{
    if let Ok(Some(rollup)) = rollup_sync(local, remote) {
        let records = synced_records(local, remote);
        assert(records =~= seq![remote[0], baseline_of(rollup)]);
        assert(records[1].compound_name == rollup.compound_name);
        law_up_applies_pending_only(local, remote, count);
    }
}

/// Every step of a `down` plan reverts a record of the database, and, unless
/// divergent records are let through, one whose compound name exists
/// locally; the plan has no more steps than the limit allows.
pub proof fn law_down_reverts_applied_only(
    local: Seq<MigrationView>,
    remote: Seq<MigrationView>,
    count: Option<usize>,
    ignore_divergent: bool,
    ignore_unreversible: bool,
)
    ensures
        down_plan(local, remote, count, ignore_divergent, ignore_unreversible) matches Ok(
            steps,
        ) ==> {
            &&& count matches Some(n) ==> steps.len() <= n
            &&& forall|i: int|
                0 <= i < steps.len() ==> (#[trigger] steps[i]) is Down && remote.contains(
                    steps[i].migration(),
                ) && (!ignore_divergent ==> has_name(local, steps[i].migration().compound_name))
        },
{
    let keep = may_roll_back(local, ignore_divergent);
    let applied = remote.filter(keep);
    lemma_filtered(remote, keep);
    lemma_capped(applied.reverse(), count);
    let candidates = down_candidates(local, remote, count, ignore_divergent);
    let steps = downs(candidates);
    assert forall|i: int| 0 <= i < steps.len() implies (#[trigger] steps[i]) is Down
        && remote.contains(steps[i].migration()) && (!ignore_divergent ==> has_name(
        local,
        steps[i].migration().compound_name,
    )) by {
        assert(steps[i] == StepView::Down(candidates[i]));
        assert(candidates[i] == applied.reverse()[i]);
        assert(applied.reverse()[i] == applied[applied.len() - 1 - i]);
        assert(keep(applied[applied.len() - 1 - i]));
    }
}

/// Without an obstacle every candidate can be reverted and exists locally.
proof fn lemma_no_redo_obstacle(local: Seq<MigrationView>, candidates: Seq<MigrationView>)
    requires
        redo_obstacle(local, candidates) is None,
    ensures
        forall|i: int|
            0 <= i < candidates.len() ==> (#[trigger] candidates[i]).down_sql is Some && has_name(
                local,
                candidates[i].compound_name,
            ),
    decreases candidates.len(),
{
    if candidates.len() > 0 {
        let rest = candidates.drop_first();
        lemma_no_redo_obstacle(local, rest);
        assert forall|i: int| 0 <= i < candidates.len() implies (#[trigger] candidates[i]).down_sql
            is Some && has_name(local, candidates[i].compound_name) by {
            if i > 0 {
                assert(candidates[i] == rest[i - 1]);
            }
        }
    }
}

/// A `redo` plan over `n` candidates has `n` `Down` steps followed by `n`
/// `Up` steps. Each `Down` step reverts a record of the database that has a
/// `down.sql`; each `Up` step applies a local migration. The compound names
/// of the `Up` steps are those of the `Down` steps in the opposite order, so
/// that the two hold the same names equally often. Where the records of the
/// database ascend by compound name, the `Down` steps descend and the `Up`
/// steps ascend.
pub proof fn law_redo_mirrors(
    local: Seq<MigrationView>,
    remote: Seq<MigrationView>,
    count: Option<usize>,
    ignore_divergent: bool,
    ignore_unreversible: bool,
)
    ensures
        redo_plan(local, remote, count, ignore_divergent, ignore_unreversible) matches Ok(
            steps,
        ) ==> {
            let n = redo_candidates(
                local,
                remote,
                count,
                ignore_divergent,
                ignore_unreversible,
            ).len() as int;
            let reverted = step_migrations(steps.take(n));
            let applied = step_migrations(steps.skip(n));
            &&& steps.len() == 2 * n
            &&& count matches Some(c) ==> n <= c
            &&& forall|i: int|
                0 <= i < n ==> (#[trigger] steps[i]) is Down && remote.contains(
                    steps[i].migration(),
                ) && steps[i].migration().down_sql is Some
            &&& forall|i: int|
                n <= i < 2 * n ==> (#[trigger] steps[i]) is Up && local.contains(
                    steps[i].migration(),
                )
            &&& names(applied) == names(reverted).reverse()
            &&& names(applied).to_multiset() == names(reverted).to_multiset()
            &&& ascending(remote) ==> descending(reverted) && ascending(applied)
        },
{
    let keep = may_redo(local, ignore_divergent, ignore_unreversible);
    let kept = remote.filter(keep);
    let candidates = redo_candidates(local, remote, count, ignore_divergent, ignore_unreversible);
    let n = candidates.len() as int;
    if let Ok(steps) = redo_plan(local, remote, count, ignore_divergent, ignore_unreversible) {
        lemma_filtered(remote, keep);
        lemma_capped(kept.reverse(), count);
        lemma_no_redo_obstacle(local, candidates);
        let again = counterparts(local, candidates);
        let reverted = step_migrations(steps.take(n));
        let applied = step_migrations(steps.skip(n));
        assert(steps == downs(candidates) + ups(again.reverse()));
        assert(reverted =~= candidates);
        assert(applied =~= again.reverse());
        assert forall|i: int| 0 <= i < n implies (#[trigger] steps[i]) is Down && remote.contains(
            steps[i].migration(),
        ) && steps[i].migration().down_sql is Some by {
            assert(steps[i] == StepView::Down(candidates[i]));
            assert(candidates[i] == kept.reverse()[i]);
            assert(kept.reverse()[i] == kept[kept.len() - 1 - i]);
        }
        assert forall|i: int| 0 <= i < n implies (#[trigger] again[i]).compound_name
            == candidates[i].compound_name && local.contains(again[i]) by {
            lemma_find_by_name(local, candidates[i].compound_name);
        }
        assert forall|i: int| n <= i < 2 * n implies (#[trigger] steps[i]) is Up && local.contains(
            steps[i].migration(),
        ) by {
            assert(steps[i] == StepView::Up(again.reverse()[i - n]));
            assert(again.reverse()[i - n] == again[n - 1 - (i - n)]);
        }
        assert(names(applied) =~= names(reverted).reverse()) by {
            assert forall|i: int| 0 <= i < n implies names(applied)[i] == names(
                reverted,
            ).reverse()[i] by {
                assert(applied[i] == again[n - 1 - i]);
                assert(reverted[n - 1 - i] == candidates[n - 1 - i]);
            }
        }
        names(reverted).lemma_reverse_to_multiset();
        if ascending(remote) {
            lemma_filter_keeps_ascending(remote, keep);
            assert forall|i: int, j: int| 0 <= i < j < reverted.len() implies name_lt(
                (#[trigger] reverted[j]).compound_name,
                (#[trigger] reverted[i]).compound_name,
            ) by {
                assert(reverted[i] == kept[kept.len() - 1 - i]);
                assert(reverted[j] == kept[kept.len() - 1 - j]);
            }
            assert forall|i: int, j: int| 0 <= i < j < applied.len() implies name_lt(
                (#[trigger] applied[i]).compound_name,
                (#[trigger] applied[j]).compound_name,
            ) by {
                assert(applied[i] == again[n - 1 - i]);
                assert(applied[j] == again[n - 1 - j]);
                assert(reverted[n - 1 - i] == candidates[n - 1 - i]);
                assert(reverted[n - 1 - j] == candidates[n - 1 - j]);
            }
        }
    }
}

/// Where there are neither local migrations nor records, the status listing
/// is empty, nothing has to happen before `up`, and every plan is made and
/// has no steps.
pub proof fn law_nothing_to_plan(
    count: Option<usize>,
    ignore_divergent: bool,
    ignore_unreversible: bool,
)
    ensures
        ({
            let none = Seq::<MigrationView>::empty();
            let idle = Ok::<Seq<StepView>, PlanErrorView>(Seq::empty());
            &&& status_walk(none, none) == Seq::<StatusView>::empty()
            &&& rollup_sync(none, none) == Ok::<Option<MigrationView>, PlanErrorView>(None)
            &&& up_plan(none, none, count) == idle
            &&& down_plan(none, none, count, ignore_divergent, ignore_unreversible) == idle
            &&& redo_plan(none, none, count, ignore_divergent, ignore_unreversible) == idle
            &&& fix_plan(none, none) == idle
        }),
{
    let none = Seq::<MigrationView>::empty();
    reveal(Seq::filter);
    assert(none.filter(absent_from(none)) =~= none);
    assert(none.filter(may_roll_back(none, ignore_divergent)) =~= none);
    assert(none.filter(may_redo(none, ignore_divergent, ignore_unreversible)) =~= none);
    assert(none.reverse() =~= none);
    assert(capped(none, count) =~= none);
    assert(none.skip(0) =~= none);
    assert(none.take(0) =~= none);
    assert(counterparts(none, none) =~= none);
    assert(ups(none) =~= Seq::<StepView>::empty());
    assert(downs(none) =~= Seq::<StepView>::empty());
    assert(downs(none) + ups(none) =~= Seq::<StepView>::empty());
}

} // verus!
