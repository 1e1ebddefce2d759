use crude::db::{DatabaseAdapter, PostgresAdapter, SqliteAdapter};
use crude::marker::{disables_transaction, fold, space};
use crude::migration::Migration;
use crude::script::{Statement, WorkUnit};

#[test]
fn marker_at_the_start_opts_out() {
    assert!(disables_transaction("-- no-transaction"));
    assert!(disables_transaction("-- no-transaction\nCREATE INDEX CONCURRENTLY i ON t (c);"));
    assert!(disables_transaction("-- no-transactions allowed"));
}

#[test]
fn marker_is_found_in_any_case() {
    assert!(disables_transaction("-- NO-TRANSACTION"));
    assert!(disables_transaction("-- No-Transaction"));
    assert!(disables_transaction("-- nO-tRaNsAcTiOn\nSELECT 1;"));
}

#[test]
fn marker_is_found_after_leading_white_space() {
    assert!(disables_transaction("  -- No-Transaction\nCREATE INDEX CONCURRENTLY i ON t (c);"));
    assert!(disables_transaction("\n\t\r\n -- no-transaction"));
    assert!(disables_transaction("\u{a0}\u{2003}\u{3000}-- no-transaction"));
    assert!(disables_transaction("\u{b}\u{c}\u{85}\u{1680}\u{2028}\u{2029}\u{202f}\u{205f}-- no-transaction"));
}

#[test]
fn marker_elsewhere_does_not_count() {
    assert!(!disables_transaction(""));
    assert!(!disables_transaction("   "));
    assert!(!disables_transaction("SELECT 1; -- no-transaction"));
    assert!(!disables_transaction("x -- no-transaction"));
    assert!(!disables_transaction("-- comment\n-- no-transaction"));
    assert!(!disables_transaction("\u{200b}-- no-transaction"));
}

#[test]
fn marker_must_be_whole() {
    assert!(!disables_transaction("-- no-transactio"));
    assert!(!disables_transaction("--no-transaction"));
    assert!(!disables_transaction("-- no transaction"));
    assert!(!disables_transaction("-- no- transaction"));
    assert!(!disables_transaction("--  no-transaction"));
    assert!(!disables_transaction("- - no-transaction"));
    assert!(!disables_transaction("-- no-transact\u{130}on"));
}

#[test]
fn detection_agrees_with_trimming_and_lower_casing() {
    for sql in [
        "-- no-transaction",
        "  -- No-Transaction\nCREATE",
        "\t--\tno-transaction",
        "-- NO-TRANSACTION;",
        "select 1",
        " -- no-transactioN",
        "-- no-transactio",
        "\u{a0}-- no-transaction",
    ] {
        let expected = sql.trim_start().to_lowercase().starts_with("-- no-transaction");
        assert_eq!(disables_transaction(sql), expected, "{sql:?}");
    }
}

#[test]
fn white_space_is_what_unicode_says() {
    for code in 0u32..0x3100 {
        if let Some(c) = char::from_u32(code) {
            assert_eq!(space(c), c.is_whitespace(), "{code:#x}");
        }
    }
    assert!(!space('\u{feff}'));
    assert!(!space('\u{10ffff}'));
}

#[test]
fn folding_takes_capitals_to_small_letters() {
    for code in 0u32..0x250 {
        if let Some(c) = char::from_u32(code) {
            assert_eq!(fold(c), c.to_ascii_lowercase() as u32);
        }
    }
    assert_eq!(fold('A'), 'a' as u32);
    assert_eq!(fold('Z'), 'z' as u32);
    assert_eq!(fold('@'), '@' as u32);
    assert_eq!(fold('['), '[' as u32);
    assert_eq!(fold('-'), '-' as u32);
    assert_eq!(fold('\u{212a}'), 0x212a);
}

fn migration(up_sql: &str, down_sql: &str, seed_sql: &str) -> Migration {
    Migration::from_dir(
        "20240101000000_a".to_string(),
        up_sql.to_string(),
        Some(down_sql.to_string()),
        Some(seed_sql.to_string()),
    )
    .unwrap()
}

#[test]
fn up_runs_in_one_transaction() {
    let m = migration("CREATE TABLE a (id INT);", "DROP TABLE a;", "");
    let units = PostgresAdapter::new().run_up_migration(&m);
    assert_eq!(
        units,
        vec![WorkUnit {
            atomic: true,
            statements: vec![
                Statement::Run("CREATE TABLE a (id INT);".to_string()),
                Statement::Record {
                    name: "20240101000000_a".to_string(),
                    hash: m.hash.clone(),
                    down_sql: Some("DROP TABLE a;".to_string()),
                },
            ],
        }]
    );
    assert_eq!(SqliteAdapter::new().run_up_migration(&m), units);
}

#[test]
fn marked_up_runs_outside_a_transaction() {
    let up = "  -- No-Transaction\nCREATE INDEX CONCURRENTLY i ON t (c);";
    let m = migration(up, "", "");
    let units = PostgresAdapter::new().run_up_migration(&m);
    assert_eq!(
        units,
        vec![WorkUnit {
            atomic: false,
            statements: vec![
                Statement::Run(up.to_string()),
                Statement::Record {
                    name: "20240101000000_a".to_string(),
                    hash: m.hash.clone(),
                    down_sql: None,
                },
            ],
        }]
    );
}

#[test]
fn seed_runs_in_a_transaction_of_its_own() {
    let marked = migration("-- no-transaction\nVACUUM;", "", "INSERT INTO a VALUES (1);");
    let units = PostgresAdapter::new().run_up_migration(&marked);
    assert_eq!(units.len(), 2);
    assert!(!units[0].atomic);
    assert_eq!(
        units[1],
        WorkUnit {
            atomic: true,
            statements: vec![Statement::Run("INSERT INTO a VALUES (1);".to_string())],
        }
    );

    let plain = migration("CREATE TABLE a (id INT);", "", "-- no-transaction\nINSERT INTO a VALUES (1);");
    let units = SqliteAdapter::new().run_up_migration(&plain);
    assert_eq!(units.len(), 2);
    assert!(units[0].atomic);
    assert!(units[1].atomic);
}

#[test]
fn down_runs_its_script_and_forgets_the_row() {
    let m = migration("CREATE TABLE a (id INT);", "DROP TABLE a;", "INSERT INTO a VALUES (1);");
    assert_eq!(
        PostgresAdapter::new().run_down_migration(&m),
        vec![WorkUnit {
            atomic: true,
            statements: vec![
                Statement::Run("DROP TABLE a;".to_string()),
                Statement::Forget {
                    name: "20240101000000_a".to_string()
                },
            ],
        }]
    );

    let marked = migration("CREATE INDEX i ON t (c);", "\n-- NO-TRANSACTION\nDROP INDEX CONCURRENTLY i;", "");
    let units = SqliteAdapter::new().run_down_migration(&marked);
    assert_eq!(units.len(), 1);
    assert!(!units[0].atomic);
    assert_eq!(units[0].statements.len(), 2);
}
