//! The planner: holds the local and the remote migrations and builds the
//! status listing and the plans.

use vstd::prelude::*;
use vstd::hash_map::StringHashMap;
use crate::error::{PlanError, PlanErrorView};
use crate::migration::{
    Migration, MigrationView, views, has_name, find_by_name, lemma_find_by_name,
};
use crate::plan::{
    MigrationState, Status, StatusView, status_views, PlanStep, StepView, step_views, Plan, ups,
    downs,
};
use crate::reconcile::{
    status_walk, absent_from, capped, first_pending_rollup, precedes_rollup, unknown_locally,
    rollup_sync, pending, up_plan, up_steps, after_sync, may_roll_back, first_unreversible,
    down_plan, may_redo,
    redo_obstacle, counterparts, redo_plan, agreeing_prefix, fix_plan,
};
use crate::text::{str_eq, str_lt};

verus! {

/// What an index on compound names answers for `name`.
pub open spec fn indexed(index: Map<Seq<char>, Migration>, name: Seq<char>) -> Option<
    MigrationView,
> {
    if index.contains_key(name) {
        Some(index[name]@)
    } else {
        None
    }
}

/// Whether `index` answers for every name as a search through `s` does.
pub open spec fn mirrors(index: Map<Seq<char>, Migration>, s: Seq<MigrationView>) -> bool {
    forall|name: Seq<char>| #[trigger] indexed(index, name) == find_by_name(s, name)
}

/// Builds plans from the local migrations and the records of the database.
pub struct Planner {
    local: Vec<Migration>,
    remote: Vec<Migration>,
    count: Option<usize>,
    ignore_divergent: bool,
    ignore_unreversible: bool,
    local_map: StringHashMap<Migration>,
    remote_map: StringHashMap<Migration>,
}

/// What a [`Planner`] holds, as plain values.
pub struct PlannerView {
    /// The local migrations, in the order given.
    pub local: Seq<MigrationView>,
    /// The records of the database, in the order given.
    pub remote: Seq<MigrationView>,
    /// The most steps of a kind that a plan may hold; `None` for no limit.
    pub count: Option<usize>,
    pub ignore_divergent: bool,
    pub ignore_unreversible: bool,
}

impl View for Planner {
    type V = PlannerView;

    closed spec fn view(&self) -> PlannerView {
        PlannerView {
            local: views(self.local@),
            remote: views(self.remote@),
            count: self.count,
            ignore_divergent: self.ignore_divergent,
            ignore_unreversible: self.ignore_unreversible,
        }
    }
}

/// A copy of `migrations` and the index of its compound names.
fn index_of(migrations: &[Migration]) -> (r: (Vec<Migration>, StringHashMap<Migration>))
    ensures
        r.0@ == migrations@,
        mirrors(r.1@, views(migrations@)),
{
    let mut list: Vec<Migration> = Vec::new();
    let mut index: StringHashMap<Migration> = StringHashMap::new();
    let mut i: usize = 0;
    while i < migrations.len()
        invariant
            i <= migrations@.len(),
            list@ == migrations@.take(i as int),
            mirrors(index@, views(migrations@.take(i as int))),
        decreases migrations@.len() - i,
    {
        let m = &migrations[i];
        let ghost before = index@;
        let ghost seen = views(migrations@.take(i as int));
        list.push(m.clone());
        index.insert(m.compound_name.clone(), m.clone());
        proof {
            let next = views(migrations@.take(i + 1));
            assert(migrations@.take(i + 1) =~= migrations@.take(i as int).push(*m));
            assert(next =~= seen.push(m@));
            assert(next.drop_last() =~= seen);
            assert forall|name: Seq<char>| #[trigger]
                indexed(index@, name) == find_by_name(next, name) by {
                assert(indexed(before, name) == find_by_name(seen, name));
            }
        }
        i += 1;
    }
    assert(migrations@.take(i as int) =~= migrations@);
    (list, index)
}

/// What a planning call returned, as plain values.
pub open spec fn planned(res: Result<Plan, PlanError>) -> Result<Seq<StepView>, PlanErrorView> {
    match res {
        Ok(plan) => Ok(plan@),
        Err(e) => Err(e@),
    }
}

/// What a rollup check returned, as plain values.
pub open spec fn synced(res: Result<Option<Migration>, PlanError>) -> Result<
    Option<MigrationView>,
    PlanErrorView,
> {
    match res {
        Ok(Some(m)) => Ok(Some(m@)),
        Ok(None) => Ok(None),
        Err(e) => Err(e@),
    }
}

/// Filtering one element more either appends that element or changes nothing.
proof fn lemma_filter_next(s: Seq<MigrationView>, i: int, keep: spec_fn(MigrationView) -> bool)
    requires
        0 <= i < s.len(),
    ensures
        s.take(i + 1).filter(keep) == if keep(s[i]) {
            s.take(i).filter(keep).push(s[i])
        } else {
            s.take(i).filter(keep)
        },
{
    assert(s.take(i + 1) =~= s.take(i).push(s[i]));
    s.take(i).lemma_filter_push(s[i], keep);
}

/// The first `count` of `list`, or all of it.
fn first_n(list: &Vec<Migration>, count: Option<usize>) -> (r: Vec<Migration>)
    ensures
        views(r@) == capped(views(list@), count),
{
    let n: usize = match count {
        Some(c) => if c < list.len() {
            c
        } else {
            list.len()
        },
        None => list.len(),
    };
    let mut out: Vec<Migration> = Vec::new();
    let mut i: usize = 0;
    while i < n
        invariant
            i <= n <= list@.len(),
            views(out@) == views(list@).take(i as int),
        decreases n - i,
    {
        let ghost before = views(out@);
        out.push(list[i].clone());
        assert(views(out@) =~= before.push(list@[i as int]@));
        assert(views(list@).take(i + 1) =~= views(list@).take(i as int).push(list@[i as int]@));
        i += 1;
    }
    assert(views(list@).take(list@.len() as int) =~= views(list@));
    out
}

/// What follows the first `from` of `list`, last first.
fn reversed_from(list: &Vec<Migration>, from: usize) -> (r: Vec<Migration>)
    requires
        from <= list@.len(),
    ensures
        views(r@) == views(list@).skip(from as int).reverse(),
{
    let mut out: Vec<Migration> = Vec::new();
    let mut i: usize = list.len();
    let ghost tail = views(list@).skip(from as int);
    while i > from
        invariant
            from <= i <= list@.len(),
            tail == views(list@).skip(from as int),
            out@.len() == list@.len() - i,
            forall|k: int| 0 <= k < out@.len() ==> (#[trigger] out@[k])@ == list@[list@.len() - 1 - k]@,
        decreases i,
    {
        i -= 1;
        out.push(list[i].clone());
    }
    assert(views(out@) =~= tail.reverse());
    out
}

/// The position of the first migration of `list` without a `down.sql`.
fn find_unreversible(list: &Vec<Migration>) -> (r: Option<usize>)
    ensures
        r matches Some(i) ==> i < list@.len() && first_unreversible(views(list@)) == Some(
            list@[i as int]@,
        ),
        r is None ==> first_unreversible(views(list@)) is None,
{
    let ghost all = views(list@);
    let mut i: usize = 0;
    assert(all.skip(0) =~= all);
    while i < list.len()
        invariant
            i <= list@.len(),
            all == views(list@),
            first_unreversible(all) == first_unreversible(all.skip(i as int)),
        decreases list@.len() - i,
    {
        assert(all.skip(i as int)[0] == list@[i as int]@);
        if list[i].down_sql.is_none() {
            return Some(i);
        }
        assert(all.skip(i as int).drop_first() =~= all.skip(i + 1));
        i += 1;
    }
    None
}

/// A `Down` step for each migration of `list`, in order.
fn downs_of(list: &Vec<Migration>) -> (r: Vec<PlanStep>)
    ensures
        step_views(r@) == downs(views(list@)),
{
    let mut out: Vec<PlanStep> = Vec::new();
    let mut i: usize = 0;
    while i < list.len()
        invariant
            i <= list@.len(),
            out@.len() == i,
            forall|k: int| 0 <= k < i ==> (#[trigger] out@[k])@ == StepView::Down(list@[k]@),
        decreases list@.len() - i,
    {
        out.push(PlanStep::Down(list[i].clone()));
        i += 1;
    }
    assert(step_views(out@) =~= downs(views(list@)));
    out
}

/// Appends an `Up` step for each migration of `list`, in order.
fn push_ups(steps: &mut Vec<PlanStep>, list: &Vec<Migration>)
    ensures
        step_views(final(steps)@) == step_views(old(steps)@) + ups(views(list@)),
{
    let ghost start = steps@;
    let mut i: usize = 0;
    while i < list.len()
        invariant
            i <= list@.len(),
            steps@.len() == start.len() + i,
            forall|k: int| 0 <= k < start.len() ==> #[trigger] steps@[k] == start[k],
            forall|k: int|
                start.len() <= k < steps@.len() ==> (#[trigger] steps@[k])@ == StepView::Up(
                    list@[k - start.len()]@,
                ),
        decreases list@.len() - i,
    {
        steps.push(PlanStep::Up(list[i].clone()));
        i += 1;
    }
    assert(step_views(steps@) =~= step_views(start) + ups(views(list@)));
}

/// Whether one of the first `upto` migrations of `list` carries `name`.
fn among_first(list: &Vec<Migration>, upto: usize, name: &str) -> (r: bool)
    requires
        upto <= list@.len(),
    ensures
        r == has_name(views(list@).take(upto as int), name@),
{
    let ghost head = views(list@).take(upto as int);
    let mut i: usize = 0;
    while i < upto
        invariant
            i <= upto <= list@.len(),
            head == views(list@).take(upto as int),
            forall|k: int| 0 <= k < i ==> (#[trigger] head[k]).compound_name != name@,
        decreases upto - i,
    {
        if str_eq(list[i].compound_name.as_str(), name) {
            assert(head[i as int].compound_name == name@);
            return true;
        }
        i += 1;
    }
    false
}

impl Planner {
    #[verifier::type_invariant]
    spec fn well_formed(self) -> bool {
        &&& mirrors(self.local_map@, views(self.local@))
        &&& mirrors(self.remote_map@, views(self.remote@))
    }

    /// A planner for the given local migrations and database records, which
    /// plans one step and ignores nothing.
    pub fn new(local: &[Migration], remote: &[Migration]) -> (planner: Self)
        ensures
            planner@ == (PlannerView {
                local: views(local@),
                remote: views(remote@),
                count: Some(1usize),
                ignore_divergent: false,
                ignore_unreversible: false,
            }),
    {
        let (local, local_map) = index_of(local);
        let (remote, remote_map) = index_of(remote);
        Planner {
            local,
            remote,
            count: Some(1),
            ignore_divergent: false,
            ignore_unreversible: false,
            local_map,
            remote_map,
        }
    }

    /// The same planner with `migrations` as its local migrations.
    pub fn local_migrations(self, migrations: &[Migration]) -> (planner: Self)
        ensures
            planner@ == (PlannerView { local: views(migrations@), ..self@ }),
    {
        proof {
            use_type_invariant(&self);
        }
        let (local, local_map) = index_of(migrations);
        Planner {
            local,
            remote: self.remote,
            count: self.count,
            ignore_divergent: self.ignore_divergent,
            ignore_unreversible: self.ignore_unreversible,
            local_map,
            remote_map: self.remote_map,
        }
    }

    /// The same planner with `migrations` as the records of the database.
    pub fn remote_migrations(self, migrations: &[Migration]) -> (planner: Self)
        ensures
            planner@ == (PlannerView { remote: views(migrations@), ..self@ }),
    {
        proof {
            use_type_invariant(&self);
        }
        let (remote, remote_map) = index_of(migrations);
        Planner {
            local: self.local,
            remote,
            count: self.count,
            ignore_divergent: self.ignore_divergent,
            ignore_unreversible: self.ignore_unreversible,
            local_map: self.local_map,
            remote_map,
        }
    }

    /// The same planner with `count` as its limit; `None` lifts the limit.
    pub fn count(self, count: Option<usize>) -> (planner: Self)
        ensures
            planner@ == (PlannerView { count, ..self@ }),
    {
        proof {
            use_type_invariant(&self);
        }
        Planner {
            local: self.local,
            remote: self.remote,
            count,
            ignore_divergent: self.ignore_divergent,
            ignore_unreversible: self.ignore_unreversible,
            local_map: self.local_map,
            remote_map: self.remote_map,
        }
    }

    /// The same planner, told whether to plan for records that do not exist
    /// locally.
    pub fn set_ignore_divergent(self, ignore_divergent: bool) -> (planner: Self)
        ensures
            planner@ == (PlannerView { ignore_divergent, ..self@ }),
    {
        proof {
            use_type_invariant(&self);
        }
        Planner {
            local: self.local,
            remote: self.remote,
            count: self.count,
            ignore_divergent,
            ignore_unreversible: self.ignore_unreversible,
            local_map: self.local_map,
            remote_map: self.remote_map,
        }
    }

    /// The same planner, told whether to pass over migrations without a
    /// `down.sql`.
    pub fn set_ignore_unreversible(self, ignore_unreversible: bool) -> (planner: Self)
        ensures
            planner@ == (PlannerView { ignore_unreversible, ..self@ }),
    {
        proof {
            use_type_invariant(&self);
        }
        Planner {
            local: self.local,
            remote: self.remote,
            count: self.count,
            ignore_divergent: self.ignore_divergent,
            ignore_unreversible,
            local_map: self.local_map,
            remote_map: self.remote_map,
        }
    }

    /// Whether a local migration carries the compound name `name`.
    fn known_locally(&self, name: &str) -> (r: bool)
        ensures
            r == has_name(self@.local, name@),
    {
        proof {
            use_type_invariant(self);
            lemma_find_by_name(self@.local, name@);
            assert(indexed(self.local_map@, name@) == find_by_name(self@.local, name@));
        }
        self.local_map.contains_key(name)
    }

    /// Whether a record of the database carries the compound name `name`.
    fn known_remotely(&self, name: &str) -> (r: bool)
        ensures
            r == has_name(self@.remote, name@),
    {
        proof {
            use_type_invariant(self);
            lemma_find_by_name(self@.remote, name@);
            assert(indexed(self.remote_map@, name@) == find_by_name(self@.remote, name@));
        }
        self.remote_map.contains_key(name)
    }

    /// The local migration with the compound name `name`.
    fn local_by_name(&self, name: &str) -> (r: Option<&Migration>)
        ensures
            r matches Some(m) ==> find_by_name(self@.local, name@) == Some(m@),
            r is None ==> find_by_name(self@.local, name@) is None,
    {
        proof {
            use_type_invariant(self);
            assert(indexed(self.local_map@, name@) == find_by_name(self@.local, name@));
        }
        self.local_map.get(name)
    }

    /// The status of every migration, local or remote: the merge of the two
    /// sequences by compound name.
    pub fn status(&self) -> (res: Result<Vec<Status>, PlanError>)
        ensures
            res matches Ok(list) && status_views(list@) == status_walk(self@.local, self@.remote),
    {
        let mut res: Vec<Status> = Vec::new();
        let mut i_local: usize = 0;
        let mut i_remote: usize = 0;
        let ghost local = self@.local;
        let ghost remote = self@.remote;
        assert(local.skip(0) =~= local);
        assert(remote.skip(0) =~= remote);
        assert(status_views(res@) =~= Seq::<StatusView>::empty());
        while i_local < self.local.len() || i_remote < self.remote.len()
            invariant
                local == views(self.local@),
                remote == views(self.remote@),
                i_local <= self.local@.len(),
                i_remote <= self.remote@.len(),
                status_views(res@) + status_walk(
                    local.skip(i_local as int),
                    remote.skip(i_remote as int),
                ) == status_walk(local, remote),
            decreases self.local@.len() - i_local + self.remote@.len() - i_remote,
        {
            let ghost done = status_views(res@);
            let ghost l = local.skip(i_local as int);
            let ghost r = remote.skip(i_remote as int);
            proof {
                if i_local < local.len() {
                    assert(l.drop_first() =~= local.skip(i_local + 1));
                }
                if i_remote < remote.len() {
                    assert(r.drop_first() =~= remote.skip(i_remote + 1));
                }
            }
            let status = if i_local < self.local.len() && i_remote < self.remote.len() {
                let lm = &self.local[i_local];
                let rm = &self.remote[i_remote];
                assert(l[0] == lm@ && r[0] == rm@);
                if str_eq(lm.compound_name.as_str(), rm.compound_name.as_str()) {
                    let state = if str_eq(lm.hash.as_str(), rm.hash.as_str()) {
                        MigrationState::Applied
                    } else {
                        MigrationState::Variant
                    };
                    i_local += 1;
                    i_remote += 1;
                    Status { state, migration: lm.clone() }
                } else if str_lt(lm.compound_name.as_str(), rm.compound_name.as_str()) {
                    i_local += 1;
                    Status { state: MigrationState::Pending, migration: lm.clone() }
                } else {
                    i_remote += 1;
                    Status { state: MigrationState::Divergent, migration: rm.clone() }
                }
            } else if i_local < self.local.len() {
                let lm = &self.local[i_local];
                assert(l[0] == lm@);
                i_local += 1;
                Status { state: MigrationState::Pending, migration: lm.clone() }
            } else {
                let rm = &self.remote[i_remote];
                assert(r[0] == rm@);
                i_remote += 1;
                Status { state: MigrationState::Divergent, migration: rm.clone() }
            };
            let ghost rest = status_walk(local.skip(i_local as int), remote.skip(i_remote as int));
            assert(status_walk(l, r) == seq![status@] + rest);
            res.push(status);
            assert(status_views(res@) =~= done.push(status@));
            assert(done.push(status@) + rest =~= done + (seq![status@] + rest));
        }
        assert(status_walk(local.skip(i_local as int), remote.skip(i_remote as int))
            =~= Seq::<StatusView>::empty());
        assert(status_views(res@) + Seq::<StatusView>::empty() =~= status_views(res@));
        Ok(res)
    }

    /// The first local rollup that the database does not record.
    fn pending_rollup(&self) -> (r: Option<usize>)
        ensures
            r matches Some(i) ==> i < self.local@.len() && first_pending_rollup(
                self@.local,
                self@.remote,
            ) == Some(self.local@[i as int]@),
            r is None ==> first_pending_rollup(self@.local, self@.remote) is None,
    {
        let ghost local = self@.local;
        let ghost remote = self@.remote;
        let mut i: usize = 0;
        assert(local.skip(0) =~= local);
        while i < self.local.len()
            invariant
                i <= self.local@.len(),
                local == views(self.local@),
                remote == self@.remote,
                first_pending_rollup(local, remote) == first_pending_rollup(
                    local.skip(i as int),
                    remote,
                ),
            decreases self.local@.len() - i,
        {
            let m = &self.local[i];
            assert(local.skip(i as int)[0] == m@);
            if str_eq(m.name.as_str(), "rollup") && !self.known_remotely(m.compound_name.as_str()) {
                return Some(i);
            }
            assert(local.skip(i as int).drop_first() =~= local.skip(i + 1));
            i += 1;
        }
        None
    }

    /// Refuses to plan while a local rollup is not recorded in the database.
    pub fn check_rollup(&self) -> (res: Result<(), PlanError>)
        ensures
            res is Err <==> first_pending_rollup(self@.local, self@.remote) is Some,
            res matches Err(e) ==> e@ == PlanErrorView::RollupOutOfSync,
    {
        match self.pending_rollup() {
            Some(_) => Err(PlanError::RollupOutOfSync),
            None => Ok(()),
        }
    }

    /// What has to happen to the database before an `up` plan is carried
    /// out: `Ok(None)` for nothing; `Ok(Some(rollup))` where every record but
    /// the oldest is to be cleared and `rollup` recorded as baseline, which
    /// is what `up` plans over. `sync_actions` hands out what does it.
    #[verifier::loop_isolation(false)]
    pub fn sync_rollup(&self) -> (res: Result<Option<Migration>, PlanError>)
        ensures
            synced(res) == rollup_sync(self@.local, self@.remote),
    {
        let ghost local = self@.local;
        let ghost remote = self@.remote;
        let at = match self.pending_rollup() {
            Some(at) => at,
            None => {
                return Ok(None);
            },
        };
        let rollup = &self.local[at];
        let mut i: usize = 0;
        while i < self.local.len()
            invariant
                i <= self.local@.len(),
                local == views(self.local@),
                remote == self@.remote,
                forall|k: int| 0 <= k < i ==> !precedes_rollup(#[trigger] local[k], rollup@, remote),
            decreases self.local@.len() - i,
        {
            let m = &self.local[i];
            if !str_eq(m.name.as_str(), "init") && !str_eq(m.name.as_str(), "rollup")
                && !self.known_remotely(m.compound_name.as_str()) && str_lt(
                m.compound_name.as_str(),
                rollup.compound_name.as_str(),
            ) {
                assert(precedes_rollup(local[i as int], rollup@, remote));
                return Err(PlanError::PendingBeforeRollup);
            }
            i += 1;
        }
        let mut j: usize = 0;
        while j < self.remote.len()
            invariant
                j <= self.remote@.len(),
                local == self@.local,
                remote == views(self.remote@),
                forall|k: int| 0 <= k < j ==> !unknown_locally(#[trigger] remote[k], local),
            decreases self.remote@.len() - j,
        {
            let m = &self.remote[j];
            if !str_eq(m.name.as_str(), "init") && !self.known_locally(m.compound_name.as_str()) {
                assert(unknown_locally(remote[j as int], local));
                return Err(PlanError::RollupOutOfSync);
            }
            j += 1;
        }
        if self.remote.len() == 0 {
            Ok(None)
        } else {
            Ok(Some(rollup.clone()))
        }
    }

    /// The local migrations that the database does not record.
    fn select_pending(&self) -> (r: Vec<Migration>)
        ensures
            views(r@) == pending(self@.local, self@.remote),
    {
        let ghost local = self@.local;
        let ghost keep = absent_from(self@.remote);
        let mut out: Vec<Migration> = Vec::new();
        let mut i: usize = 0;
        assert(views(out@) =~= local.take(0).filter(keep)) by {
            reveal(Seq::filter);
        }
        while i < self.local.len()
            invariant
                i <= self.local@.len(),
                local == views(self.local@),
                keep == absent_from(self@.remote),
                views(out@) == local.take(i as int).filter(keep),
            decreases self.local@.len() - i,
        {
            let m = &self.local[i];
            let ghost before = views(out@);
            proof {
                lemma_filter_next(local, i as int, keep);
            }
            if !self.known_remotely(m.compound_name.as_str()) {
                out.push(m.clone());
                assert(views(out@) =~= before.push(m@));
            }
            i += 1;
        }
        assert(local.take(i as int) =~= local);
        out
    }

    /// The steps that apply the pending migrations, oldest first, up to the
    /// limit.
    fn pending_steps(&self) -> (plan: Plan)
        ensures
            plan@ == up_steps(self@.local, self@.remote, self@.count),
    {
        let waiting = self.select_pending();
        let chosen = first_n(&waiting, self.count);
        let mut steps: Vec<PlanStep> = Vec::new();
        push_ups(&mut steps, &chosen);
        assert(step_views(steps@) =~= ups(views(chosen@)));
        Plan { steps }
    }

    /// The plan that applies pending migrations, oldest first, up to the
    /// limit. It is refused where the rollup check is. Where that check
    /// takes a rollup as baseline, the plan is made over the records as the
    /// sync leaves them: the oldest record and the baseline. The rollup is
    /// then no step of the plan, and the plan holds once the caller has
    /// cleared and recorded what `sync_rollup` hands out.
    pub fn up(self) -> (res: Result<Plan, PlanError>)
        ensures
            planned(res) == up_plan(self@.local, self@.remote, self@.count),
    {
        match self.sync_rollup() {
            Err(e) => Err(e),
            Ok(None) => Ok(self.pending_steps()),
            Ok(Some(rollup)) => {
                let ghost before = self@;
                let mut records: Vec<Migration> = Vec::new();
                records.push(self.remote[0].clone());
                records.push(
                    Migration {
                        name: rollup.name,
                        compound_name: rollup.compound_name,
                        up_sql: None,
                        down_sql: None,
                        seed_sql: None,
                        hash: rollup.hash,
                    },
                );
                assert(views(records@) =~= after_sync(before.remote, rollup@));
                let synced = self.remote_migrations(records.as_slice());
                Ok(synced.pending_steps())
            },
        }
    }

    /// The records that `down` may roll back, in the order of the database.
    fn select_rollback(&self) -> (r: Vec<Migration>)
        ensures
            views(r@) == self@.remote.filter(may_roll_back(self@.local, self@.ignore_divergent)),
    {
        let ghost remote = self@.remote;
        let ghost keep = may_roll_back(self@.local, self@.ignore_divergent);
        let mut out: Vec<Migration> = Vec::new();
        let mut i: usize = 0;
        assert(views(out@) =~= remote.take(0).filter(keep)) by {
            reveal(Seq::filter);
        }
        while i < self.remote.len()
            invariant
                i <= self.remote@.len(),
                remote == views(self.remote@),
                keep == may_roll_back(self@.local, self@.ignore_divergent),
                views(out@) == remote.take(i as int).filter(keep),
            decreases self.remote@.len() - i,
        {
            let m = &self.remote[i];
            let ghost before = views(out@);
            proof {
                lemma_filter_next(remote, i as int, keep);
            }
            if self.ignore_divergent || self.known_locally(m.compound_name.as_str()) {
                out.push(m.clone());
                assert(views(out@) =~= before.push(m@));
            }
            i += 1;
        }
        assert(remote.take(i as int) =~= remote);
        out
    }

    /// The plan that rolls back the most recent records, most recent first,
    /// up to the limit.
    pub fn down(self) -> (res: Result<Plan, PlanError>)
        ensures
            planned(res) == down_plan(
                self@.local,
                self@.remote,
                self@.count,
                self@.ignore_divergent,
                self@.ignore_unreversible,
            ),
    {
        match self.check_rollup() {
            Err(e) => {
                return Err(e);
            },
            Ok(_) => {},
        }
        let applied = self.select_rollback();
        let recent = reversed_from(&applied, 0);
        assert(views(applied@).skip(0) =~= views(applied@));
        let chosen = first_n(&recent, self.count);
        if !self.ignore_unreversible {
            match find_unreversible(&chosen) {
                Some(i) => {
                    return Err(PlanError::UnreversibleRollback(chosen[i].compound_name.clone()));
                },
                None => {},
            }
        }
        Ok(Plan { steps: downs_of(&chosen) })
    }

    /// The records that `redo` considers, in the order of the database.
    fn select_redo(&self) -> (r: Vec<Migration>)
        ensures
            views(r@) == self@.remote.filter(
                may_redo(self@.local, self@.ignore_divergent, self@.ignore_unreversible),
            ),
    {
        let ghost remote = self@.remote;
        let ghost keep = may_redo(self@.local, self@.ignore_divergent, self@.ignore_unreversible);
        let mut out: Vec<Migration> = Vec::new();
        let mut i: usize = 0;
        assert(views(out@) =~= remote.take(0).filter(keep)) by {
            reveal(Seq::filter);
        }
        while i < self.remote.len()
            invariant
                i <= self.remote@.len(),
                remote == views(self.remote@),
                keep == may_redo(self@.local, self@.ignore_divergent, self@.ignore_unreversible),
                views(out@) == remote.take(i as int).filter(keep),
            decreases self.remote@.len() - i,
        {
            let m = &self.remote[i];
            let ghost before = views(out@);
            proof {
                lemma_filter_next(remote, i as int, keep);
            }
            if !str_eq(m.name.as_str(), "init") && !str_eq(m.name.as_str(), "rollup") && (
            self.ignore_divergent || self.known_locally(m.compound_name.as_str())) && (
            !self.ignore_unreversible || m.down_sql.is_some()) {
                out.push(m.clone());
                assert(views(out@) =~= before.push(m@));
            }
            i += 1;
        }
        assert(remote.take(i as int) =~= remote);
        out
    }

    /// The plan that rolls back the most recent records, most recent first,
    /// and applies their local counterparts again, oldest first.
    #[verifier::loop_isolation(false)]
    pub fn redo(self) -> (res: Result<Plan, PlanError>)
        ensures
            planned(res) == redo_plan(
                self@.local,
                self@.remote,
                self@.count,
                self@.ignore_divergent,
                self@.ignore_unreversible,
            ),
    {
        match self.check_rollup() {
            Err(e) => {
                return Err(e);
            },
            Ok(_) => {},
        }
        let applied = self.select_redo();
        let recent = reversed_from(&applied, 0);
        assert(views(applied@).skip(0) =~= views(applied@));
        let chosen = first_n(&recent, self.count);
        let ghost local = self@.local;
        let ghost all = views(chosen@);
        let mut again: Vec<Migration> = Vec::new();
        let mut i: usize = 0;
        assert(all.skip(0) =~= all);
        while i < chosen.len()
            invariant
                i <= chosen@.len(),
                local == self@.local,
                all == views(chosen@),
                redo_obstacle(local, all) == redo_obstacle(local, all.skip(i as int)),
                again@.len() == i,
                forall|k: int| 0 <= k < i ==> (#[trigger] again@[k])@ == counterparts(local, all)[k],
            decreases chosen@.len() - i,
        {
            let m = &chosen[i];
            assert(all.skip(i as int)[0] == m@);
            proof {
                lemma_find_by_name(local, m@.compound_name);
            }
            if m.down_sql.is_none() {
                return Err(PlanError::UnreversibleRedo(m.compound_name.clone()));
            }
            match self.local_by_name(m.compound_name.as_str()) {
                Some(l) => {
                    again.push(l.clone());
                },
                None => {
                    return Err(PlanError::DivergentRedo(m.compound_name.clone()));
                },
            }
            assert(all.skip(i as int).drop_first() =~= all.skip(i + 1));
            i += 1;
        }
        assert(views(again@) =~= counterparts(local, all));
        let mut steps = downs_of(&chosen);
        let oldest_first = reversed_from(&again, 0);
        assert(views(again@).skip(0) =~= views(again@));
        push_ups(&mut steps, &oldest_first);
        Ok(Plan { steps })
    }

    /// How many leading records the local set holds under the same hash.
    fn count_agreeing(&self) -> (r: usize)
        ensures
            r == agreeing_prefix(self@.local, self@.remote),
            r <= self.remote@.len(),
    {
        let ghost local = self@.local;
        let ghost remote = self@.remote;
        let mut i: usize = 0;
        assert(remote.skip(0) =~= remote);
        while i < self.remote.len()
            invariant
                i <= self.remote@.len(),
                local == self@.local,
                remote == views(self.remote@),
                agreeing_prefix(local, remote) == i + agreeing_prefix(local, remote.skip(i as int)),
            decreases self.remote@.len() - i,
        {
            let m = &self.remote[i];
            assert(remote.skip(i as int)[0] == m@);
            let same = match self.local_by_name(m.compound_name.as_str()) {
                Some(l) => str_eq(l.hash.as_str(), m.hash.as_str()),
                None => false,
            };
            if !same {
                return i;
            }
            assert(remote.skip(i as int).drop_first() =~= remote.skip(i + 1));
            i += 1;
        }
        i
    }

    /// The local migrations that are not among the first `kept` records.
    fn select_outside(&self, kept: usize) -> (r: Vec<Migration>)
        requires
            kept <= self.remote@.len(),
        ensures
            views(r@) == self@.local.filter(absent_from(self@.remote.take(kept as int))),
    {
        let ghost local = self@.local;
        let ghost keep = absent_from(self@.remote.take(kept as int));
        let mut out: Vec<Migration> = Vec::new();
        let mut i: usize = 0;
        assert(views(out@) =~= local.take(0).filter(keep)) by {
            reveal(Seq::filter);
        }
        while i < self.local.len()
            invariant
                i <= self.local@.len(),
                kept <= self.remote@.len(),
                local == views(self.local@),
                keep == absent_from(views(self.remote@).take(kept as int)),
                views(out@) == local.take(i as int).filter(keep),
            decreases self.local@.len() - i,
        {
            let m = &self.local[i];
            let ghost before = views(out@);
            proof {
                lemma_filter_next(local, i as int, keep);
            }
            if !among_first(&self.remote, kept, m.compound_name.as_str()) {
                out.push(m.clone());
                assert(views(out@) =~= before.push(m@));
            }
            i += 1;
        }
        assert(local.take(i as int) =~= local);
        out
    }

    /// The plan that rolls back every record from the first that the local
    /// set does not hold under the same hash, most recent first, and then
    /// applies every local migration that is not recorded before that point.
    pub fn fix(self) -> (res: Result<Plan, PlanError>)
        ensures
            planned(res) == fix_plan(self@.local, self@.remote),
    {
        match self.check_rollup() {
            Err(e) => {
                return Err(e);
            },
            Ok(_) => {},
        }
        let kept = self.count_agreeing();
        let back = reversed_from(&self.remote, kept);
        match find_unreversible(&back) {
            Some(i) => {
                return Err(PlanError::UnreversibleRollback(back[i].compound_name.clone()));
            },
            None => {},
        }
        let mut steps = downs_of(&back);
        let forward = self.select_outside(kept);
        push_ups(&mut steps, &forward);
        Ok(Plan { steps })
    }
}

} // verus!