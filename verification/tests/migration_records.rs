use crude::digest::{content_hash, digest_text};
use crude::migration::Migration;
use crude::naming::{from_compound_name, resolve_name, timestamp_of, NameError};

#[test]
fn hash_is_the_sha256_of_up_sql_in_hex() {
    let m = Migration::from_dir(
        "20240101000000_a".to_string(),
        "abc".to_string(),
        None,
        None,
    )
    .unwrap();
    assert_eq!(
        m.hash,
        "ba7816bf8f01cfea414140de5dae2223b00361a396177a9cb410ff61f20015ad"
    );
    assert_eq!(m.hash, content_hash(m.up_sql.as_deref().unwrap()));
}

#[test]
fn hash_of_an_empty_script() {
    assert_eq!(
        content_hash(""),
        "e3b0c44298fc1c149afbf4c8996fb92427ae41e4649b934ca495991b7852b855"
    );
}

#[test]
fn hash_of_a_longer_script() {
    assert_eq!(
        content_hash("abcdbcdecdefdefgefghfghighijhijkijkljklmklmnlmnomnopnopq"),
        "248d6a61d20638b8e5c026930c3e6039a33ce45964ff2167f6ecedd419db06c1"
    );
}

#[test]
fn digest_is_written_in_lower_case_hex() {
    assert_eq!(digest_text(&[]), "");
    assert_eq!(digest_text(&[0x00, 0x0f, 0xa5, 0xff, 0x10]), "000fa5ff10");
    assert_eq!(digest_text(&[0xab, 0xcd, 0xef]), "abcdef");
}

#[test]
fn local_migration_holds_what_the_files_hold() {
    let m = Migration::from_dir(
        "20230623041234_create_users".to_string(),
        "CREATE TABLE users (id INT);".to_string(),
        Some("DROP TABLE users;".to_string()),
        Some("INSERT INTO users VALUES (1);".to_string()),
    )
    .unwrap();
    assert_eq!(m.name, "create_users");
    assert_eq!(m.compound_name, "20230623041234_create_users");
    assert_eq!(m.up_sql.as_deref(), Some("CREATE TABLE users (id INT);"));
    assert_eq!(m.down_sql.as_deref(), Some("DROP TABLE users;"));
    assert_eq!(m.seed_sql.as_deref(), Some("INSERT INTO users VALUES (1);"));
}

#[test]
fn empty_files_count_as_absent() {
    let m = Migration::from_dir(
        "20230623041234_create_users".to_string(),
        String::new(),
        Some(String::new()),
        Some(String::new()),
    )
    .unwrap();
    assert_eq!(m.up_sql.as_deref(), Some(""));
    assert_eq!(m.down_sql, None);
    assert_eq!(m.seed_sql, None);

    let n = Migration::from_dir(
        "20230623041234_create_users".to_string(),
        String::new(),
        None,
        Some(" ".to_string()),
    )
    .unwrap();
    assert_eq!(n.down_sql, None);
    assert_eq!(n.seed_sql.as_deref(), Some(" "));
}

#[test]
fn remote_record_holds_what_the_row_holds() {
    let m = Migration::from_db(
        "20230623041234_create_users".to_string(),
        "feed".to_string(),
        Some("DROP TABLE users;".to_string()),
    )
    .unwrap();
    assert_eq!(m.name, "create_users");
    assert_eq!(m.compound_name, "20230623041234_create_users");
    assert_eq!(m.up_sql, None);
    assert_eq!(m.down_sql.as_deref(), Some("DROP TABLE users;"));
    assert_eq!(m.seed_sql, None);
    assert_eq!(m.hash, "feed");

    let bare = Migration::from_db("20230623041234_x".to_string(), String::new(), None).unwrap();
    assert_eq!(bare.down_sql, None);
    assert_eq!(bare.hash, "");
}

#[test]
fn short_name_follows_the_first_underscore() {
    assert_eq!(from_compound_name("20240101000000_a"), Ok("a".to_string()));
    assert_eq!(
        from_compound_name("20240101000000_add_index_to_users"),
        Ok("add_index_to_users".to_string())
    );
    assert_eq!(from_compound_name("20240101000000_"), Ok(String::new()));
    assert_eq!(from_compound_name("20240101000000__x"), Ok("_x".to_string()));
    assert_eq!(from_compound_name("20240229235959_leap"), Ok("leap".to_string()));
    assert_eq!(
        from_compound_name("20240101000000_caf\u{e9}"),
        Ok("caf\u{e9}".to_string())
    );
}

#[test]
fn name_without_underscore_is_refused() {
    let refused = from_compound_name("20240101000000").unwrap_err();
    assert_eq!(
        refused,
        NameError::MissingUnderscore {
            compound_name: "20240101000000".to_string()
        }
    );
    assert_eq!(
        refused.message(),
        "invalid migration name (missing '_'): 20240101000000"
    );
    assert!(matches!(
        from_compound_name(""),
        Err(NameError::MissingUnderscore { .. })
    ));
}

#[test]
fn timestamp_must_be_fourteen_digits() {
    for name in [
        "2024010100000_a",
        "202401010000000_a",
        "2024010100000x_a",
        "+2024010100000_a",
        "2024 1 1 0 0 0_a",
        "_a",
        "create_users",
    ] {
        let refused = from_compound_name(name).unwrap_err();
        let timestamp = name.split('_').next().unwrap().to_string();
        assert_eq!(refused, NameError::MalformedTimestamp { timestamp });
    }
    assert_eq!(
        from_compound_name("2024010100000_a").unwrap_err().message(),
        "failed to parse timestamp 2024010100000: expected 14 digits"
    );
}

#[test]
fn timestamp_must_be_a_date_and_time() {
    for name in [
        "20241301000000_a",
        "20240230000000_a",
        "20230229000000_a",
        "20240101240000_a",
        "20240101006000_a",
        "20240100000000_a",
    ] {
        match from_compound_name(name) {
            Err(NameError::InvalidTimestamp { timestamp, reason }) => {
                assert_eq!(timestamp, name[..14]);
                assert!(!reason.is_empty());
            }
            other => panic!("{name} gave {other:?}"),
        }
    }
    assert!(Migration::from_db("20241301000000_a".to_string(), String::new(), None).is_err());
    assert!(
        Migration::from_dir("20241301000000_a".to_string(), String::new(), None, None).is_err()
    );
}

#[test]
fn verdict_on_the_timestamp_decides_last() {
    assert_eq!(
        resolve_name("20240101000000_a", Ok(())),
        Ok("a".to_string())
    );
    let refused = resolve_name("20240101000000_a", Err("no such day".to_string())).unwrap_err();
    assert_eq!(
        refused,
        NameError::InvalidTimestamp {
            timestamp: "20240101000000".to_string(),
            reason: "no such day".to_string(),
        }
    );
    assert_eq!(
        refused.message(),
        "failed to parse timestamp 20240101000000: no such day"
    );
    assert_eq!(
        resolve_name("2024_a", Err("no such day".to_string())),
        Err(NameError::MalformedTimestamp {
            timestamp: "2024".to_string()
        })
    );
    assert_eq!(
        resolve_name("nothing", Err("no such day".to_string())),
        Err(NameError::MissingUnderscore {
            compound_name: "nothing".to_string()
        })
    );
}

#[test]
fn timestamp_stands_before_the_first_underscore() {
    assert_eq!(timestamp_of("20240101000000_a_b"), Some("20240101000000".to_string()));
    assert_eq!(timestamp_of("_a"), Some(String::new()));
    assert_eq!(timestamp_of("abc"), None);
    assert_eq!(timestamp_of(""), None);
}

#[test]
fn clone_keeps_every_field() {
    let m = Migration::from_dir(
        "20230623041234_create_users".to_string(),
        "CREATE TABLE users (id INT);".to_string(),
        Some("DROP TABLE users;".to_string()),
        Some("INSERT INTO users VALUES (1);".to_string()),
    )
    .unwrap();
    assert_eq!(m.clone(), m);
}
