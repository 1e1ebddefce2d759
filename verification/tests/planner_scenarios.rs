use crude::db::{DatabaseAdapter, PostgresAdapter};
use crude::error::PlanError;
use crude::executor::{sync_actions, Action};
use crude::ledger::{Ledger, TrackingRow};
use crude::migration::Migration;
use crude::plan::{MigrationState, Plan, PlanOptions, PlanStep};
use crude::planner::Planner;
use crude::script::next_step;

fn local(compound_name: &str, up_sql: &str, down_sql: &str) -> Migration {
    Migration::from_dir(
        compound_name.to_string(),
        up_sql.to_string(),
        Some(down_sql.to_string()),
        Some(String::new()),
    )
    .unwrap()
}

fn recorded(m: &Migration) -> Migration {
    Migration::from_db(m.compound_name.clone(), m.hash.clone(), m.down_sql.clone()).unwrap()
}

fn carry_out(ledger: &mut Ledger, plan: &Plan) -> bool {
    let adapter = PostgresAdapter::new();
    for step in &plan.steps {
        let units = match step {
            PlanStep::Up(m) => adapter.run_up_migration(m),
            PlanStep::Down(m) => adapter.run_down_migration(m),
        };
        if !ledger.run(&units) {
            return false;
        }
    }
    true
}

fn reload(ledger: &Ledger) -> Vec<Migration> {
    PostgresAdapter::new().load_migrations(&ledger.rows).unwrap()
}

fn names(plan: &Plan) -> Vec<String> {
    plan.steps
        .iter()
        .map(|step| match step {
            PlanStep::Up(m) => format!("up {}", m.compound_name),
            PlanStep::Down(m) => format!("down {}", m.compound_name),
        })
        .collect()
}

fn a() -> Migration {
    local("20240101000000_a", "CREATE TABLE a (id INT);", "DROP TABLE a;")
}

fn b() -> Migration {
    local("20240102000000_b", "CREATE TABLE b (id INT);", "DROP TABLE b;")
}

fn c() -> Migration {
    local("20240103000000_c", "CREATE TABLE c (id INT);", "DROP TABLE c;")
}

#[test]
fn fresh_up_applies_everything_in_order() {
    let locals = vec![a(), b()];
    let plan = Planner::new(&locals, &[]).count(None).up().unwrap();
    assert_eq!(plan.steps, vec![PlanStep::Up(a()), PlanStep::Up(b())]);

    let mut ledger = Ledger::new();
    assert!(carry_out(&mut ledger, &plan));
    let remote = reload(&ledger);
    assert_eq!(remote, vec![recorded(&a()), recorded(&b())]);

    let status = Planner::new(&locals, &remote).status().unwrap();
    assert_eq!(status.len(), 2);
    assert_eq!(status[0].state, MigrationState::Applied);
    assert_eq!(status[0].migration, a());
    assert_eq!(status[1].state, MigrationState::Applied);
    assert_eq!(status[1].migration, b());
}

#[test]
fn up_is_capped_by_the_count() {
    let locals = vec![a(), b(), c()];
    let one = Planner::new(&locals, &[]).up().unwrap();
    assert_eq!(names(&one), vec!["up 20240101000000_a"]);
    let two = Planner::new(&locals, &[]).count(Some(2)).up().unwrap();
    assert_eq!(names(&two), vec!["up 20240101000000_a", "up 20240102000000_b"]);
    let many = Planner::new(&locals, &[]).count(Some(7)).up().unwrap();
    assert_eq!(many.steps.len(), 3);
    let none = Planner::new(&locals, &[]).count(Some(0)).up().unwrap();
    assert!(none.steps.is_empty());
}

#[test]
fn up_skips_what_the_database_records() {
    let locals = vec![a(), b(), c()];
    let remote = vec![recorded(&b())];
    let plan = Planner::new(&locals, &remote).count(None).up().unwrap();
    assert_eq!(names(&plan), vec!["up 20240101000000_a", "up 20240103000000_c"]);
    for step in &plan.steps {
        match step {
            PlanStep::Up(m) => {
                assert!(locals.contains(m));
                assert!(remote.iter().all(|r| r.compound_name != m.compound_name));
            }
            PlanStep::Down(_) => panic!("an up plan holds a down step"),
        }
    }
}

#[test]
fn partial_rollback_reverts_the_latest() {
    let locals = vec![a(), b()];
    let mut ledger = Ledger::new();
    let up = Planner::new(&locals, &[]).count(None).up().unwrap();
    assert!(carry_out(&mut ledger, &up));

    let remote = reload(&ledger);
    let down = Planner::new(&locals, &remote).count(Some(1)).down().unwrap();
    assert_eq!(down.steps, vec![PlanStep::Down(recorded(&b()))]);
    assert!(carry_out(&mut ledger, &down));

    let remote = reload(&ledger);
    assert_eq!(remote, vec![recorded(&a())]);
    let status = Planner::new(&locals, &remote).status().unwrap();
    assert_eq!(status.len(), 2);
    assert_eq!(status[0].state, MigrationState::Applied);
    assert_eq!(status[0].migration.compound_name, "20240101000000_a");
    assert_eq!(status[1].state, MigrationState::Pending);
    assert_eq!(status[1].migration.compound_name, "20240102000000_b");
}

#[test]
fn edited_migration_is_variant_and_not_pending() {
    let remote = vec![recorded(&a())];
    let edited = local("20240101000000_a", "CREATE TABLE a (id BIGINT);", "DROP TABLE a;");
    assert_ne!(edited.hash, a().hash);
    let locals = vec![edited.clone()];

    let status = Planner::new(&locals, &remote).status().unwrap();
    assert_eq!(status.len(), 1);
    assert_eq!(status[0].state, MigrationState::Variant);
    assert_eq!(status[0].migration, edited);

    let plan = Planner::new(&locals, &remote).count(None).up().unwrap();
    assert!(plan.steps.is_empty());
}

#[test]
fn divergent_record_is_rolled_back_only_on_request() {
    let locals = vec![a()];
    let remote = vec![recorded(&a()), recorded(&c())];

    let default = Planner::new(&locals, &remote).count(None).down().unwrap();
    assert_eq!(names(&default), vec!["down 20240101000000_a"]);

    let forced = Planner::new(&locals, &remote)
        .set_ignore_divergent(true)
        .count(None)
        .down()
        .unwrap();
    assert_eq!(names(&forced), vec!["down 20240103000000_c", "down 20240101000000_a"]);

    let latest = Planner::new(&locals, &remote).down().unwrap();
    assert_eq!(names(&latest), vec!["down 20240101000000_a"]);
}

#[test]
fn down_steps_come_from_the_database() {
    let locals = vec![a(), b()];
    let remote = vec![recorded(&a()), recorded(&b()), recorded(&c())];
    let plan = Planner::new(&locals, &remote).count(None).down().unwrap();
    assert_eq!(names(&plan), vec!["down 20240102000000_b", "down 20240101000000_a"]);
    for step in &plan.steps {
        match step {
            PlanStep::Down(m) => {
                assert!(remote.contains(m));
                assert!(locals.iter().any(|l| l.compound_name == m.compound_name));
            }
            PlanStep::Up(_) => panic!("a down plan holds an up step"),
        }
    }
}

#[test]
fn irreversible_migration_is_not_rolled_back() {
    let plain = local("20240102000000_b", "CREATE TABLE b (id INT);", "");
    assert_eq!(plain.down_sql, None);
    let locals = vec![a(), plain.clone()];
    let remote = vec![recorded(&a()), recorded(&plain)];

    let refused = Planner::new(&locals, &remote).count(Some(1)).down().unwrap_err();
    assert_eq!(
        refused,
        PlanError::UnreversibleRollback("20240102000000_b".to_string())
    );
    assert_eq!(
        refused.message(),
        "unable to rollback unreversible migration 20240102000000_b"
    );

    let allowed = Planner::new(&locals, &remote)
        .set_ignore_unreversible(true)
        .count(Some(1))
        .down()
        .unwrap();
    assert_eq!(allowed.steps, vec![PlanStep::Down(recorded(&plain))]);
}

fn perform(ledger: &mut Ledger, actions: &[Action]) -> bool {
    let adapter = PostgresAdapter::new();
    let mut taken = 0;
    let mut failed = false;
    while let Some(action) = next_step(actions, taken, failed) {
        let done = match action {
            Action::Show(_) => true,
            Action::Apply(m) => ledger.run(&adapter.run_up_migration(m)),
            Action::Revert(m) => ledger.run(&adapter.run_down_migration(m)),
            Action::Clear => ledger.run(&adapter.clear_migrations()),
            Action::Baseline { name, hash } => ledger.run(&adapter.record_baseline(name, hash)),
            Action::Create { .. } | Action::Remove { .. } => true,
        };
        if done {
            taken += 1;
        } else {
            failed = true;
        }
    }
    !failed
}

#[test]
fn rollup_is_taken_as_baseline() {
    let init = local("20000101000000_init", "CREATE SCHEMA crude;", "");
    let rollup = local("20240105000000_rollup", "CREATE TABLE everything (id INT);", "");
    let locals = vec![init.clone(), a(), b(), rollup.clone()];

    let mut ledger = Ledger::new();
    let first = Planner::new(&[init.clone(), a(), b()], &[]).count(None).up().unwrap();
    assert!(carry_out(&mut ledger, &first));
    let remote = reload(&ledger);
    assert_eq!(remote.len(), 3);

    let planner = Planner::new(&locals, &remote).count(None);
    let baseline = planner.sync_rollup().unwrap().unwrap();
    assert_eq!(baseline, rollup);

    let actions = sync_actions(&baseline);
    assert_eq!(
        actions,
        vec![
            Action::Clear,
            Action::Baseline {
                name: "20240105000000_rollup".to_string(),
                hash: rollup.hash.clone(),
            },
            Action::Show("\u{1b}[36mSync\u{1b}[39m - 20240105000000_rollup\n".to_string()),
        ]
    );
    assert!(perform(&mut ledger, &actions));
    assert_eq!(
        ledger.rows,
        vec![
            TrackingRow {
                name: "20000101000000_init".to_string(),
                hash: init.hash.clone(),
                down_sql: None,
            },
            TrackingRow {
                name: "20240105000000_rollup".to_string(),
                hash: rollup.hash.clone(),
                down_sql: None,
            },
        ]
    );

    let planner = planner.remote_migrations(&reload(&ledger));
    assert_eq!(planner.sync_rollup(), Ok(None));
    let status = planner.status().unwrap();
    let of = |name: &str| {
        status
            .iter()
            .find(|s| s.migration.compound_name == name)
            .map(|s| s.state)
    };
    assert_eq!(of("20000101000000_init"), Some(MigrationState::Applied));
    assert_eq!(of("20240105000000_rollup"), Some(MigrationState::Applied));
}

#[test]
fn rollup_taken_as_baseline_is_no_step() {
    let init = local("20000101000000_init", "CREATE SCHEMA crude;", "");
    let rollup = local("20240105000000_rollup", "CREATE TABLE everything (id INT);", "");
    let locals = vec![init.clone(), a(), b(), rollup.clone()];
    let remote = vec![recorded(&init), recorded(&a()), recorded(&b())];

    let before = Planner::new(&locals, &remote).count(None).up().unwrap();
    assert!(before.steps.iter().all(|step| match step {
        PlanStep::Up(m) => m.compound_name != rollup.compound_name,
        PlanStep::Down(_) => false,
    }));
    assert_eq!(names(&before), vec!["up 20240101000000_a", "up 20240102000000_b"]);

    let mut synced = vec![recorded(&init)];
    synced.push(
        Migration::from_db(rollup.compound_name.clone(), rollup.hash.clone(), None).unwrap(),
    );
    let after = Planner::new(&locals, &synced).count(None).up().unwrap();
    assert_eq!(after, before);

    let limited = Planner::new(&locals, &remote).up().unwrap();
    assert_eq!(names(&limited), vec!["up 20240101000000_a"]);
}

#[test]
fn rollup_that_replaced_its_history_leaves_nothing_to_apply() {
    let init = local("20000101000000_init", "CREATE SCHEMA crude;", "");
    let rollup = local("20240105000000_rollup", "CREATE TABLE everything (id INT);", "");
    let locals = vec![init.clone(), rollup.clone()];
    let remote = vec![recorded(&init)];
    let planner = Planner::new(&locals, &remote).count(None);
    assert_eq!(planner.sync_rollup(), Ok(Some(rollup)));
    assert!(planner.up().unwrap().steps.is_empty());
}

#[test]
fn rollup_on_an_empty_database_is_applied_like_any_other() {
    let rollup = local("20240201000000_rollup", "CREATE TABLE everything (id INT);", "");
    let locals = vec![rollup.clone()];
    let planner = Planner::new(&locals, &[]).count(None);
    assert_eq!(planner.sync_rollup(), Ok(None));
    assert_eq!(planner.up().unwrap().steps, vec![PlanStep::Up(rollup)]);
}

#[test]
fn rollup_after_a_pending_migration_is_refused() {
    let rollup = local("20240201000000_rollup", "CREATE TABLE everything (id INT);", "");
    let locals = vec![a(), b(), rollup];
    let remote = vec![recorded(&a())];
    let planner = Planner::new(&locals, &remote);
    assert_eq!(planner.sync_rollup(), Err(PlanError::PendingBeforeRollup));
    assert_eq!(
        PlanError::PendingBeforeRollup.message(),
        "pending migrations before the rollup, please re-order them to the end"
    );
    assert_eq!(planner.up(), Err(PlanError::PendingBeforeRollup));
}

#[test]
fn rollup_over_unknown_history_is_refused() {
    let rollup = local("20240201000000_rollup", "CREATE TABLE everything (id INT);", "");
    let locals = vec![a(), rollup];
    let remote = vec![recorded(&a()), recorded(&b())];
    let planner = Planner::new(&locals, &remote);
    assert_eq!(planner.sync_rollup(), Err(PlanError::RollupOutOfSync));
    assert_eq!(
        PlanError::RollupOutOfSync.message(),
        "unable to sync the rollup, please reset the database"
    );
    assert_eq!(planner.up(), Err(PlanError::RollupOutOfSync));
}

#[test]
fn pending_rollup_blocks_down_redo_and_fix() {
    let rollup = local("20240201000000_rollup", "CREATE TABLE everything (id INT);", "");
    let locals = vec![a(), rollup];
    let remote = vec![recorded(&a())];
    assert_eq!(
        Planner::new(&locals, &remote).check_rollup(),
        Err(PlanError::RollupOutOfSync)
    );
    assert_eq!(
        Planner::new(&locals, &remote).down(),
        Err(PlanError::RollupOutOfSync)
    );
    assert_eq!(
        Planner::new(&locals, &remote).redo(),
        Err(PlanError::RollupOutOfSync)
    );
    assert_eq!(
        Planner::new(&locals, &remote).fix(),
        Err(PlanError::RollupOutOfSync)
    );
    assert_eq!(Planner::new(&[a()], &remote).check_rollup(), Ok(()));
}

#[test]
fn redo_goes_down_and_up_again() {
    let locals = vec![a(), b(), c()];
    let remote = vec![recorded(&a()), recorded(&b()), recorded(&c())];

    let one = Planner::new(&locals, &remote).redo().unwrap();
    assert_eq!(one.steps, vec![PlanStep::Down(recorded(&c())), PlanStep::Up(c())]);

    let two = Planner::new(&locals, &remote).count(Some(2)).redo().unwrap();
    assert_eq!(
        two.steps,
        vec![
            PlanStep::Down(recorded(&c())),
            PlanStep::Down(recorded(&b())),
            PlanStep::Up(b()),
            PlanStep::Up(c()),
        ]
    );

    let all = Planner::new(&locals, &remote).count(None).redo().unwrap();
    assert_eq!(
        names(&all),
        vec![
            "down 20240103000000_c",
            "down 20240102000000_b",
            "down 20240101000000_a",
            "up 20240101000000_a",
            "up 20240102000000_b",
            "up 20240103000000_c",
        ]
    );

    let mut ledger = Ledger {
        rows: remote
            .iter()
            .map(|m| TrackingRow {
                name: m.compound_name.clone(),
                hash: m.hash.clone(),
                down_sql: m.down_sql.clone(),
            })
            .collect(),
        broken: vec![],
    };
    let before = ledger.rows.clone();
    assert!(carry_out(&mut ledger, &all));
    assert_eq!(ledger.rows, before);
}

#[test]
fn redo_leaves_out_the_reserved_names() {
    let init = local("20000101000000_init", "CREATE SCHEMA crude;", "DROP SCHEMA crude;");
    let rollup = local("20240102000000_rollup", "CREATE TABLE r (id INT);", "DROP TABLE r;");
    let locals = vec![init.clone(), a(), rollup.clone()];
    let remote = vec![recorded(&init), recorded(&a()), recorded(&rollup)];
    let plan = Planner::new(&locals, &remote).count(None).redo().unwrap();
    assert_eq!(names(&plan), vec!["down 20240101000000_a", "up 20240101000000_a"]);
}

#[test]
fn redo_refuses_what_cannot_be_reverted() {
    let plain = local("20240102000000_b", "CREATE TABLE b (id INT);", "");
    let locals = vec![a(), plain.clone()];
    let remote = vec![recorded(&a()), recorded(&plain)];

    let refused = Planner::new(&locals, &remote).redo().unwrap_err();
    assert_eq!(refused, PlanError::UnreversibleRedo("20240102000000_b".to_string()));
    assert_eq!(
        refused.message(),
        "unable to redo unreversible migration 20240102000000_b"
    );

    let skipped = Planner::new(&locals, &remote)
        .set_ignore_unreversible(true)
        .redo()
        .unwrap();
    assert_eq!(names(&skipped), vec!["down 20240101000000_a", "up 20240101000000_a"]);
}

#[test]
fn redo_refuses_what_does_not_exist_locally() {
    let locals = vec![a()];
    let remote = vec![recorded(&a()), recorded(&c())];

    let known = Planner::new(&locals, &remote).redo().unwrap();
    assert_eq!(names(&known), vec!["down 20240101000000_a", "up 20240101000000_a"]);

    let refused = Planner::new(&locals, &remote)
        .set_ignore_divergent(true)
        .redo()
        .unwrap_err();
    assert_eq!(refused, PlanError::DivergentRedo("20240103000000_c".to_string()));
    assert_eq!(
        refused.message(),
        "unable to redo divergent migration 20240103000000_c"
    );
}

#[test]
fn fix_reverts_from_the_first_difference_and_catches_up() {
    let edited = local("20240102000000_b", "CREATE TABLE b (id BIGINT);", "DROP TABLE b;");
    let d = local("20240104000000_d", "CREATE TABLE d (id INT);", "DROP TABLE d;");
    let locals = vec![a(), edited.clone(), c()];
    let remote = vec![recorded(&a()), recorded(&b()), recorded(&d)];

    let plan = Planner::new(&locals, &remote).fix().unwrap();
    assert_eq!(
        plan.steps,
        vec![
            PlanStep::Down(recorded(&d)),
            PlanStep::Down(recorded(&b())),
            PlanStep::Up(edited.clone()),
            PlanStep::Up(c()),
        ]
    );

    let mut ledger = Ledger {
        rows: remote
            .iter()
            .map(|m| TrackingRow {
                name: m.compound_name.clone(),
                hash: m.hash.clone(),
                down_sql: m.down_sql.clone(),
            })
            .collect(),
        broken: vec![],
    };
    assert!(carry_out(&mut ledger, &plan));
    let mut in_table: Vec<(String, String)> = ledger
        .rows
        .iter()
        .map(|r| (r.name.clone(), r.hash.clone()))
        .collect();
    in_table.sort();
    let mut offered: Vec<(String, String)> = locals
        .iter()
        .map(|m| (m.compound_name.clone(), m.hash.clone()))
        .collect();
    offered.sort();
    assert_eq!(in_table, offered);

    let status = Planner::new(&locals, &reload(&ledger)).status().unwrap();
    assert!(status.iter().all(|s| s.state == MigrationState::Applied));
}

#[test]
fn fix_on_a_clean_database_only_catches_up() {
    let locals = vec![a(), b(), c()];
    let remote = vec![recorded(&a())];
    let plan = Planner::new(&locals, &remote).fix().unwrap();
    assert_eq!(names(&plan), vec!["up 20240102000000_b", "up 20240103000000_c"]);
}

#[test]
fn fix_refuses_what_cannot_be_reverted() {
    let plain = local("20240103000000_c", "CREATE TABLE c (id INT);", "");
    let locals = vec![a()];
    let remote = vec![recorded(&a()), recorded(&b()), recorded(&plain)];
    let refused = Planner::new(&locals, &remote).fix().unwrap_err();
    assert_eq!(
        refused,
        PlanError::UnreversibleRollback("20240103000000_c".to_string())
    );
}

#[test]
fn nothing_to_plan_where_both_sides_are_empty() {
    assert!(Planner::new(&[], &[]).status().unwrap().is_empty());
    assert_eq!(Planner::new(&[], &[]).sync_rollup(), Ok(None));
    assert!(Planner::new(&[], &[]).count(None).up().unwrap().steps.is_empty());
    assert!(Planner::new(&[], &[]).count(None).down().unwrap().steps.is_empty());
    assert!(Planner::new(&[], &[]).count(None).redo().unwrap().steps.is_empty());
    assert!(Planner::new(&[], &[]).fix().unwrap().steps.is_empty());
}

#[test]
fn status_has_one_entry_for_each_name() {
    let edited = local("20240102000000_b", "CREATE TABLE b (id BIGINT);", "DROP TABLE b;");
    let d = local("20240104000000_d", "CREATE TABLE d (id INT);", "DROP TABLE d;");
    let locals = vec![a(), edited.clone(), c()];
    let remote = vec![recorded(&a()), recorded(&b()), recorded(&d)];
    let status = Planner::new(&locals, &remote).status().unwrap();
    let listed: Vec<(&str, MigrationState)> = status
        .iter()
        .map(|s| (s.migration.compound_name.as_str(), s.state))
        .collect();
    assert_eq!(
        listed,
        vec![
            ("20240101000000_a", MigrationState::Applied),
            ("20240102000000_b", MigrationState::Variant),
            ("20240103000000_c", MigrationState::Pending),
            ("20240104000000_d", MigrationState::Divergent),
        ]
    );
    assert_eq!(status[1].migration, edited);
    assert_eq!(status[3].migration, recorded(&d));
}

#[test]
fn builders_replace_one_setting_each() {
    let locals = vec![a(), b()];
    let planner = Planner::new(&[], &[])
        .local_migrations(&locals)
        .remote_migrations(&[recorded(&a())]);
    let status = planner.status().unwrap();
    assert_eq!(status.len(), 2);
    assert_eq!(status[0].state, MigrationState::Applied);
    assert_eq!(status[1].state, MigrationState::Pending);
    let plan = planner.up().unwrap();
    assert_eq!(plan.steps, vec![PlanStep::Up(b())]);
}

#[test]
fn up_then_down_leaves_the_table_as_it_was() {
    let adapter = PostgresAdapter::new();
    let mut ledger = Ledger::new();
    assert!(ledger.run(&adapter.run_up_migration(&a())));
    let before = ledger.rows.clone();

    assert!(ledger.run(&adapter.run_up_migration(&b())));
    assert_eq!(ledger.rows.len(), 2);
    assert_eq!(
        ledger.rows[1],
        TrackingRow {
            name: "20240102000000_b".to_string(),
            hash: b().hash,
            down_sql: Some("DROP TABLE b;".to_string()),
        }
    );
    assert!(ledger.run(&adapter.run_down_migration(&b())));
    assert_eq!(ledger.rows, before);
}

fn table(rows: &[&Migration]) -> Vec<TrackingRow> {
    rows.iter()
        .map(|m| TrackingRow {
            name: m.compound_name.clone(),
            hash: m.hash.clone(),
            down_sql: m.down_sql.clone(),
        })
        .collect()
}

#[test]
fn failing_body_leaves_no_row_and_skips_the_seed() {
    let adapter = PostgresAdapter::new();
    let seeded = Migration::from_dir(
        "20240102000000_b".to_string(),
        "CREATE TABLE b (id INT);".to_string(),
        Some("DROP TABLE b;".to_string()),
        Some("INSERT INTO b VALUES (1);".to_string()),
    )
    .unwrap();
    let units = adapter.run_up_migration(&seeded);
    assert_eq!(units.len(), 2);

    let mut ledger = Ledger {
        rows: table(&[&a()]),
        broken: vec!["CREATE TABLE b (id INT);".to_string()],
    };
    assert!(!ledger.run(&units));
    assert_eq!(ledger.rows, table(&[&a()]));

    assert_eq!(next_step(&units, 0, false), Some(&units[0]));
    assert_eq!(next_step(&units, 0, true), None);
    assert_eq!(next_step(&units, 1, true), None);
}

#[test]
fn failing_body_outside_a_transaction_leaves_no_row() {
    let adapter = PostgresAdapter::new();
    let body = "-- no-transaction\nCREATE INDEX CONCURRENTLY i ON t (c);";
    let marked = local("20240102000000_b", body, "DROP INDEX i;");
    let units = adapter.run_up_migration(&marked);
    assert!(!units[0].atomic);

    let mut ledger = Ledger {
        rows: table(&[&a()]),
        broken: vec![body.to_string()],
    };
    assert!(!ledger.run(&units));
    assert_eq!(ledger.rows, table(&[&a()]));
}

#[test]
fn failing_seed_leaves_the_migration_recorded() {
    let adapter = PostgresAdapter::new();
    let seeded = Migration::from_dir(
        "20240102000000_b".to_string(),
        "CREATE TABLE b (id INT);".to_string(),
        Some("DROP TABLE b;".to_string()),
        Some("INSERT INTO b VALUES (1);".to_string()),
    )
    .unwrap();
    let mut ledger = Ledger {
        rows: table(&[&a()]),
        broken: vec!["INSERT INTO b VALUES (1);".to_string()],
    };
    assert!(!ledger.run(&adapter.run_up_migration(&seeded)));
    assert_eq!(ledger.rows, table(&[&a(), &seeded]));
}

#[test]
fn failing_revert_keeps_the_row() {
    let adapter = PostgresAdapter::new();
    let mut ledger = Ledger {
        rows: table(&[&a(), &b()]),
        broken: vec!["DROP TABLE b;".to_string()],
    };
    assert!(!ledger.run(&adapter.run_down_migration(&b())));
    assert_eq!(ledger.rows, table(&[&a(), &b()]));
    assert!(ledger.run(&adapter.run_down_migration(&a())));
    assert_eq!(ledger.rows, table(&[&b()]));
}

#[test]
fn plan_halts_at_the_first_failing_step() {
    let locals = vec![a(), b(), c()];
    let plan = Planner::new(&locals, &[]).count(None).up().unwrap();
    let actions = plan.run(&PlanOptions {
        seed: false,
        plan_only: false,
    });
    assert_eq!(actions.len(), 6);

    let mut ledger = Ledger {
        rows: vec![],
        broken: vec!["CREATE TABLE b (id INT);".to_string()],
    };
    assert!(!perform(&mut ledger, &actions));
    assert_eq!(ledger.rows, table(&[&a()]));

    let mut sound = Ledger::new();
    assert!(perform(&mut sound, &actions));
    assert_eq!(sound.rows, table(&[&a(), &b(), &c()]));
}
