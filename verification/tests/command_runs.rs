use crude::commands::{
    maybe_dump_schema, CommandError, Down, Fix, Init, New, Options, Redo, Repair, Retime,
    Rollup, SchemaDump, Status, Subcommands, Up, Verify, INIT_MIGRATION,
};
use crude::db::{PostgresAdapter, SqliteAdapter};
use crude::dump::Command;
use crude::digest::content_hash;
use crude::error::PlanError;
use crude::executor::Action;
use crude::migration::Migration;
use crude::plan::{MigrationState, PlanOptions};
use crude::planner::Planner;

fn local(compound_name: &str, down_sql: &str) -> Migration {
    Migration::from_dir(
        compound_name.to_string(),
        format!("-- {compound_name}"),
        Some(down_sql.to_string()),
        Some("INSERT INTO seeds VALUES (1);".to_string()),
    )
    .unwrap()
}

fn recorded(m: &Migration) -> Migration {
    Migration::from_db(m.compound_name.clone(), m.hash.clone(), m.down_sql.clone()).unwrap()
}

fn a() -> Migration {
    local("20240101000000_a", "DROP TABLE a;")
}

fn b() -> Migration {
    local("20240102000000_b", "DROP TABLE b;")
}

fn c() -> Migration {
    local("20240103000000_c", "DROP TABLE c;")
}

fn without_seed(m: &Migration) -> Migration {
    let mut bare = m.clone();
    bare.seed_sql = None;
    bare
}

fn applied(actions: &[Action]) -> Vec<String> {
    actions
        .iter()
        .filter_map(|action| match action {
            Action::Apply(m) => Some(format!("up {}", m.compound_name)),
            Action::Revert(m) => Some(format!("down {}", m.compound_name)),
            _ => None,
        })
        .collect()
}

const RUN: PlanOptions = PlanOptions {
    seed: false,
    plan_only: false,
};

#[test]
fn url_is_asked_for() {
    let given = Options {
        url: Some("sqlite://db".to_string()),
        migrations_dir: None,
        schema: None,
    };
    assert_eq!(given.get_url(), Ok("sqlite://db"));
    let missing = Options {
        url: None,
        migrations_dir: Some("m".to_string()),
        schema: Some("s".to_string()),
    };
    assert_eq!(missing.get_url(), Err(CommandError::MissingUrl));
    assert_eq!(
        CommandError::MissingUrl.message(),
        "the following required arguments were not provided:\n  --url <URL>"
    );
}

#[test]
fn init_applies_the_first_migration_only() {
    assert_eq!(INIT_MIGRATION, "20000101000000_init");
    let init = local(INIT_MIGRATION, "");
    assert_eq!(init.name, "init");
    let locals = vec![init.clone(), a()];
    let actions = (Init {}).run(Planner::new(&locals, &[])).unwrap();
    assert_eq!(actions.len(), 2);
    assert_eq!(actions[0], Action::Apply(without_seed(&init)));
    assert!(matches!(&actions[1], Action::Show(line) if line.ends_with("20000101000000_init\n")));
}

#[test]
fn new_migration_gets_the_time_in_front() {
    let new = New {
        name: "create_users".to_string(),
    };
    assert_eq!(
        new.run("20240506070809"),
        Ok("20240506070809_create_users".to_string())
    );
}

#[test]
fn reserved_names_cannot_be_created() {
    for name in ["rollup", "init"] {
        let new = New {
            name: name.to_string(),
        };
        assert_eq!(new.run("20240506070809"), Err(CommandError::ReservedName));
    }
    assert_eq!(
        CommandError::ReservedName.message(),
        "migration name cannot be 'rollup' or 'init'"
    );
    for name in ["Rollup", "init_users", "", "rollup "] {
        let new = New {
            name: name.to_string(),
        };
        assert!(new.run("20240506070809").is_ok());
    }
}

#[test]
fn status_command_reports_every_migration() {
    let locals = vec![a(), b()];
    let remote = vec![recorded(&a())];
    let text = (Status {}).run(&Planner::new(&locals, &remote)).unwrap();
    assert_eq!(
        text,
        "\u{1b}[32m  Applied\u{1b}[39m - 20240101000000_a\n\u{1b}[33m  Pending\u{1b}[39m - 20240102000000_b\n"
    );
}

#[test]
fn up_command_applies_the_number_asked_for() {
    let locals = vec![a(), b(), c()];
    let all = Up {
        number: None,
        plan_options: RUN,
    };
    assert_eq!(
        applied(&all.run(Planner::new(&locals, &[])).unwrap()),
        vec!["up 20240101000000_a", "up 20240102000000_b", "up 20240103000000_c"]
    );
    let two = Up {
        number: Some(2),
        plan_options: PlanOptions {
            seed: true,
            plan_only: false,
        },
    };
    let actions = two.run(Planner::new(&locals, &[])).unwrap();
    assert_eq!(actions.len(), 4);
    assert_eq!(actions[0], Action::Apply(a()));
    assert_eq!(actions[2], Action::Apply(b()));
    let shown = Up {
        number: None,
        plan_options: PlanOptions {
            seed: false,
            plan_only: true,
        },
    };
    let actions = shown.run(Planner::new(&locals, &[])).unwrap();
    assert_eq!(actions.len(), 1);
    assert!(matches!(&actions[0], Action::Show(text) if text.lines().count() == 3));
}

#[test]
fn down_command_rolls_back_one_unless_told_otherwise() {
    let locals = vec![a(), b(), c()];
    let remote = vec![recorded(&a()), recorded(&b()), recorded(&c())];
    let one = Down {
        number: 1,
        all: false,
        plan_only: false,
        ignore_divergent: false,
        ignore_unreversible: false,
    };
    assert_eq!(
        applied(&one.run(Planner::new(&locals, &remote)).unwrap()),
        vec!["down 20240103000000_c"]
    );
    let all = Down { all: true, ..one };
    assert_eq!(
        applied(&all.run(Planner::new(&locals, &remote)).unwrap()),
        vec!["down 20240103000000_c", "down 20240102000000_b", "down 20240101000000_a"]
    );
    let shown = Down {
        number: 2,
        plan_only: true,
        ..one
    };
    let actions = shown.run(Planner::new(&locals, &remote)).unwrap();
    assert_eq!(actions.len(), 1);
    assert!(matches!(&actions[0], Action::Show(text) if text.lines().count() == 2));
}

#[test]
fn down_command_hands_its_flags_to_the_planner() {
    let plain = local("20240102000000_b", "");
    let locals = vec![a()];
    let remote = vec![recorded(&a()), recorded(&plain)];
    let default = Down {
        number: 5,
        all: false,
        plan_only: false,
        ignore_divergent: false,
        ignore_unreversible: false,
    };
    assert_eq!(
        applied(&default.run(Planner::new(&locals, &remote)).unwrap()),
        vec!["down 20240101000000_a"]
    );
    let divergent = Down {
        ignore_divergent: true,
        ..default
    };
    assert_eq!(
        divergent.run(Planner::new(&locals, &remote)),
        Err(PlanError::UnreversibleRollback("20240102000000_b".to_string()))
    );
    let both = Down {
        ignore_divergent: true,
        ignore_unreversible: true,
        ..default
    };
    assert_eq!(
        applied(&both.run(Planner::new(&locals, &remote)).unwrap()),
        vec!["down 20240102000000_b", "down 20240101000000_a"]
    );
}

#[test]
fn redo_command_goes_down_and_up() {
    let locals = vec![a(), b()];
    let remote = vec![recorded(&a()), recorded(&b())];
    let redo = Redo {
        number: 1,
        all: false,
        plan_options: RUN,
        ignore_divergent: false,
        ignore_unreversible: false,
    };
    assert_eq!(
        applied(&redo.run(Planner::new(&locals, &remote)).unwrap()),
        vec!["down 20240102000000_b", "up 20240102000000_b"]
    );
    let all = Redo { all: true, ..redo };
    assert_eq!(
        applied(&all.run(Planner::new(&locals, &remote)).unwrap()),
        vec![
            "down 20240102000000_b",
            "down 20240101000000_a",
            "up 20240101000000_a",
            "up 20240102000000_b"
        ]
    );
}

#[test]
fn fix_command_reconciles() {
    let locals = vec![a(), b()];
    let remote = vec![recorded(&a()), recorded(&c())];
    let fix = Fix { plan_options: RUN };
    assert_eq!(
        applied(&fix.run(Planner::new(&locals, &remote)).unwrap()),
        vec!["down 20240103000000_c", "up 20240102000000_b"]
    );
}

#[test]
fn repair_finds_the_migration_by_either_name() {
    let locals = vec![a(), b(), local("20240104000000_b", "")];
    let by_short = Repair {
        name: "b".to_string(),
    };
    assert_eq!(by_short.run(&locals), Ok(b()));
    let by_compound = Repair {
        name: "20240104000000_b".to_string(),
    };
    assert_eq!(by_compound.run(&locals).unwrap().compound_name, "20240104000000_b");
    let unknown = Repair {
        name: "c".to_string(),
    };
    let refused = unknown.run(&locals).unwrap_err();
    assert_eq!(refused, CommandError::UnknownMigration("c".to_string()));
    assert_eq!(refused.message(), "unable to find local migration c");
}

#[test]
fn retime_keeps_the_short_name() {
    let locals = vec![a(), local("20240102000000_add_index", "")];
    let retime = Retime {
        name: "add_index".to_string(),
    };
    assert_eq!(
        retime.run(&locals, "20250101120000"),
        Ok((
            "20240102000000_add_index".to_string(),
            "20250101120000_add_index".to_string()
        ))
    );
    let by_compound = Retime {
        name: "20240101000000_a".to_string(),
    };
    assert_eq!(
        by_compound.run(&locals, "20250101120000"),
        Ok(("20240101000000_a".to_string(), "20250101120000_a".to_string()))
    );
    let unknown = Retime {
        name: "nothing".to_string(),
    };
    assert_eq!(
        unknown.run(&locals, "20250101120000"),
        Err(CommandError::UnknownMigration("nothing".to_string()))
    );
}

#[test]
fn rollup_needs_a_clean_status() {
    let locals = vec![a(), b()];
    let clean = Planner::new(&locals, &[recorded(&a()), recorded(&b())])
        .status()
        .unwrap();
    assert_eq!((Rollup {}).run(&clean), Ok(()));
    assert_eq!((Rollup {}).run(&[]), Ok(()));

    let pending = Planner::new(&locals, &[recorded(&a())]).status().unwrap();
    assert_eq!(pending[1].state, MigrationState::Pending);
    assert_eq!((Rollup {}).run(&pending), Err(CommandError::NotClean));
    let divergent = Planner::new(&[a()], &[recorded(&a()), recorded(&b())])
        .status()
        .unwrap();
    assert_eq!((Rollup {}).run(&divergent), Err(CommandError::NotClean));
    assert_eq!(
        CommandError::NotClean.message(),
        "cannot rollup when there are pending, variant, or divergent migrations"
    );
}

#[test]
fn rollup_baseline_is_named_and_hashed() {
    let (name, hash) = (Rollup {}).baseline("20250101120000", "CREATE TABLE t (id INT);");
    assert_eq!(name, "20250101120000_rollup");
    assert_eq!(hash, content_hash("CREATE TABLE t (id INT);"));
    let baseline =
        Migration::from_dir(name, "CREATE TABLE t (id INT);".to_string(), None, None).unwrap();
    assert_eq!(baseline.name, "rollup");
    assert_eq!(baseline.hash, hash);
}

#[test]
fn rollup_removes_all_but_the_initial_migration() {
    let locals = vec![
        local("20000101000000_init", ""),
        a(),
        local("20240102000000_rollup", ""),
        b(),
    ];
    assert_eq!(
        (Rollup {}).removals(&locals),
        vec!["20240101000000_a", "20240102000000_rollup", "20240102000000_b"]
    );
    assert_eq!((Rollup {}).removals(&[]), Vec::<String>::new());
}

#[test]
fn verify_applies_reverts_and_applies_again() {
    let locals = vec![a(), b()];
    let one = Verify {
        name: Some("20240102000000_b".to_string()),
    };
    assert_eq!(
        one.run(&locals),
        vec![
            Action::Show("Verifying 20240102000000_b...\n".to_string()),
            Action::Apply(b()),
            Action::Revert(b()),
            Action::Apply(b()),
            Action::Show(" OK\n".to_string()),
        ]
    );
    let all = Verify { name: None };
    let actions = all.run(&locals);
    assert_eq!(actions.len(), 10);
    assert_eq!(
        applied(&actions),
        vec![
            "up 20240101000000_a",
            "down 20240101000000_a",
            "up 20240101000000_a",
            "up 20240102000000_b",
            "down 20240102000000_b",
            "up 20240102000000_b"
        ]
    );
    let short = Verify {
        name: Some("b".to_string()),
    };
    assert!(short.run(&locals).is_empty());
}

#[test]
fn commands_that_start_a_database_wait_for_it() {
    let up = Subcommands::Up(Up {
        number: None,
        plan_options: RUN,
    });
    assert!(up.waits());
    assert!(Subcommands::Init(Init {}).waits());
    assert!(Subcommands::Verify(Verify { name: None }).waits());
    assert!(!Subcommands::Status(Status {}).waits());
    assert!(!Subcommands::Fix(Fix { plan_options: RUN }).waits());
    assert!(!Subcommands::Rollup(Rollup {}).waits());
    assert!(!Subcommands::New(New {
        name: "x".to_string()
    })
    .waits());
    assert!(!Subcommands::Repair(Repair {
        name: "x".to_string()
    })
    .waits());
    assert!(!Subcommands::Retime(Retime {
        name: "x".to_string()
    })
    .waits());
    assert!(!Subcommands::Down(Down {
        number: 1,
        all: false,
        plan_only: false,
        ignore_divergent: false,
        ignore_unreversible: false,
    })
    .waits());
    assert!(!Subcommands::Redo(Redo {
        number: 1,
        all: false,
        plan_options: RUN,
        ignore_divergent: false,
        ignore_unreversible: false,
    })
    .waits());
}

#[test]
fn schema_is_dumped_where_a_file_is_asked_for() {
    let quiet = Options {
        url: Some("postgres://h/db".to_string()),
        migrations_dir: None,
        schema: None,
    };
    assert_eq!(maybe_dump_schema(&PostgresAdapter::new(), &quiet), Ok(None));
    assert_eq!(
        maybe_dump_schema(
            &SqliteAdapter::new(),
            &Options {
                url: None,
                migrations_dir: None,
                schema: None
            }
        ),
        Ok(None)
    );

    let asked = Options {
        url: Some("postgres://h/db".to_string()),
        migrations_dir: None,
        schema: Some("db/schema.sql".to_string()),
    };
    assert_eq!(
        maybe_dump_schema(&PostgresAdapter::new(), &asked),
        Ok(Some(SchemaDump {
            command: Command {
                program: "pg_dump".to_string(),
                arguments: vec![
                    "--schema-only".to_string(),
                    "--no-owner".to_string(),
                    "--no-privileges".to_string(),
                    "--dbname=postgres://h/db".to_string(),
                ],
            },
            path: "db/schema.sql".to_string(),
        }))
    );
    let lite = Options {
        url: Some("sqlite://db".to_string()),
        migrations_dir: None,
        schema: Some("schema.sql".to_string()),
    };
    assert_eq!(
        maybe_dump_schema(&SqliteAdapter::new(), &lite),
        Ok(Some(SchemaDump {
            command: Command {
                program: "sqlite3".to_string(),
                arguments: vec!["sqlite://db".to_string(), ".schema".to_string()],
            },
            path: "schema.sql".to_string(),
        }))
    );

    let nowhere = Options {
        url: None,
        migrations_dir: None,
        schema: Some("schema.sql".to_string()),
    };
    assert_eq!(
        maybe_dump_schema(&SqliteAdapter::new(), &nowhere),
        Err(CommandError::MissingUrl)
    );
}

#[test]
fn rollup_acts_in_the_order_that_loses_nothing() {
    let locals = vec![
        local("20000101000000_init", ""),
        a(),
        local("20240102000000_rollup", ""),
    ];
    let actions = (Rollup {}).actions(
        &locals,
        "20250101120000",
        "CREATE TABLE t (id INT);",
        "INSERT INTO t VALUES (1);",
    );
    assert_eq!(
        actions,
        vec![
            Action::Create {
                compound_name: "20250101120000_rollup".to_string(),
                up_sql: Some("CREATE TABLE t (id INT);".to_string()),
                seed_sql: Some("INSERT INTO t VALUES (1);".to_string()),
            },
            Action::Clear,
            Action::Baseline {
                name: "20250101120000_rollup".to_string(),
                hash: content_hash("CREATE TABLE t (id INT);"),
            },
            Action::Show("\u{1b}[36mRolled up\u{1b}[39m 20240101000000_a\n".to_string()),
            Action::Remove {
                compound_name: "20240101000000_a".to_string(),
            },
            Action::Show("\u{1b}[36mRolled up\u{1b}[39m 20240102000000_rollup\n".to_string()),
            Action::Remove {
                compound_name: "20240102000000_rollup".to_string(),
            },
        ]
    );

    let bare = (Rollup {}).actions(&[], "20250101120000", "", "");
    assert_eq!(bare.len(), 3);
    assert_eq!(bare[1], Action::Clear);
}
