use hive::config::{ExposeConfig, UsesConfig};
use hive::crypto::hmac_sign;
use hive::exposure::{ExposureError, ExposureManager};
use hive::flags::{check_status, clear_flags, compute_hash, config_path, file_status, flag_files, index_path, load_index, parse_entry, save_index, CheckMode, FileProbe, FileStatus, FlagEntry, FlagIndex, FlagsConfig, StateConfig};

#[test]
fn test_hmac_sign() {
    let sig1 = hmac_sign("hive-001", "secret").unwrap();
    let sig2 = hmac_sign("hive-001", "secret").unwrap();
    assert_eq!(sig1, sig2);

    let sig3 = hmac_sign("hive-002", "secret").unwrap();
    assert_ne!(sig1, sig3);

    let sig4 = hmac_sign("hive-001", "different-secret").unwrap();
    assert_ne!(sig1, sig4);
}

#[test]
fn test_hmac_sign_empty_data() {
    let sig = hmac_sign("", "secret").unwrap();
    assert!(!sig.is_empty());
}

#[test]
fn test_hmac_sign_rejects_empty_secret() {
    assert!(hmac_sign("data", "").is_err());
    assert!(hmac_sign("", "").is_err());
}

#[test]
fn hmac_known_value() {
    // RFC 4231, test case 2
    assert_eq!(
        hmac_sign("what do ya want for nothing?", "Jefe").unwrap(),
        "5bdcc146bf60754e6a042426089575c75a003f089d2739839dec58b964ec3843"
    );
}

#[test]
fn test_register_exposed() {
    let mut manager = ExposureManager::new();

    let config = ExposeConfig {
        name: "shared-db".to_string(),
        secret: None,
        vars: vec![("DATABASE_URL".to_string(), "postgres://localhost:{{runtime.port.db}}/mydb".to_string())],
    };

    let ports = vec![("db".to_string(), 5432u16)];

    manager.register_exposed("default", "postgres", &config, &ports).unwrap();

    let exposed = manager.get_exposed("shared-db").unwrap();
    assert_eq!(exposed.name, "shared-db");
    let url = exposed.vars.iter().find(|(k, _)| k == "DATABASE_URL").map(|(_, v)| v.clone());
    assert_eq!(url, Some("postgres://localhost:5432/mydb".to_string()));
}

#[test]
fn test_secret_verification() {
    let mut manager = ExposureManager::new();

    let config = ExposeConfig { name: "protected-db".to_string(), secret: Some("my-secret-123".to_string()), vars: vec![] };

    manager.register_exposed("default", "postgres", &config, &vec![]).unwrap();

    assert!(manager.verify_secret("protected-db", Some("my-secret-123")).unwrap());
    assert!(manager.verify_secret("protected-db", Some("wrong-secret")).is_err());
    assert!(manager.verify_secret("protected-db", None).is_err());
}

#[test]
fn test_resolve_uses() {
    let mut manager = ExposureManager::new();

    let expose_config = ExposeConfig {
        name: "shared-db".to_string(),
        secret: None,
        vars: vec![
            ("DATABASE_URL".to_string(), "postgres://localhost:5432/mydb".to_string()),
            ("DB_HOST".to_string(), "localhost".to_string()),
        ],
    };

    let ports = vec![("db".to_string(), 5432u16)];

    manager.register_exposed("default", "postgres", &expose_config, &ports).unwrap();

    manager.update_health("shared-db", true);

    let uses_config = vec![UsesConfig {
        name: "shared-db".to_string(),
        secret: None,
        alias: Some("pg".to_string()),
        vars: vec![("DATABASE_URL".to_string(), "MY_DB_URL".to_string())],
    }];

    let (vars, uses_ports) = manager.resolve_uses(&uses_config).unwrap();

    let get = |k: &str| vars.iter().rev().find(|(key, _)| key == k).map(|(_, v)| v.clone());
    assert_eq!(get("MY_DB_URL"), Some("postgres://localhost:5432/mydb".to_string()));
    assert_eq!(get("DB_HOST"), Some("localhost".to_string()));
    let pg = &uses_ports.iter().find(|(alias, _)| alias == "pg").unwrap().1;
    assert_eq!(pg.iter().find(|(n, _)| n == "db").map(|(_, p)| *p), Some(5432));
}

#[test]
fn exposure_failures() {
    let mut manager = ExposureManager::new();
    let config = ExposeConfig { name: "db".to_string(), secret: None, vars: vec![] };
    manager.register_exposed("a", "pg", &config, &vec![]).unwrap();
    let err = manager.register_exposed("b", "pg", &config, &vec![]).unwrap_err();
    assert_eq!(err.message(), "Expose name 'db' is already used by a:pg");
    let uses = vec![UsesConfig { name: "db".to_string(), secret: None, alias: None, vars: vec![] }];
    let err = manager.resolve_uses(&uses).unwrap_err();
    assert_eq!(err.message(), "Exposed service 'db' is not healthy");
    let missing = vec![UsesConfig { name: "nope".to_string(), secret: None, alias: None, vars: vec![] }];
    assert!(matches!(manager.resolve_uses(&missing).unwrap_err(), ExposureError::Unknown { .. }));
    let bad = ExposeConfig { name: "x".to_string(), secret: None, vars: vec![("A".to_string(), "{{runtime.port.none}}".to_string())] };
    assert!(matches!(manager.register_exposed("a", "b", &bad, &vec![]).unwrap_err(), ExposureError::Interpolation(_)));
    let empty = ExposeConfig { name: String::new(), secret: Some("s".to_string()), vars: vec![] };
    assert!(matches!(manager.register_exposed("a", "b", &empty, &vec![]).unwrap_err(), ExposureError::Crypto(_)));
    manager.unregister_exposed("db");
    assert!(manager.get_exposed("db").is_none());
    assert!(manager.list_exposed().is_empty());
}

fn config_with(states: &[&str]) -> FlagsConfig {
    FlagsConfig {
        check: CheckMode::Fast,
        states: states.iter().map(|s| (s.to_string(), StateConfig { description: String::new() })).collect(),
    }
}

fn entry(path: &str, mtime: u64, hash: &str) -> FlagEntry {
    FlagEntry { path: path.to_string(), mtime, hash: hash.to_string() }
}

#[test]
fn index_lines_round_trip() {
    let e = parse_entry("dir with space/file.rs 1700000000 abcdef0123").unwrap();
    assert_eq!(e.path, "dir with space/file.rs");
    assert_eq!(e.mtime, 1700000000);
    assert_eq!(e.hash, "abcdef0123");
    assert!(parse_entry("only two").is_none());
    assert!(parse_entry("a b c").is_none());

    let lines: Vec<String> = vec!["# comment", "", "b.rs 2 h2", "a.rs 1 h1", "b.rs 3 h3", "garbage"]
        .into_iter()
        .map(|s| s.to_string())
        .collect();
    let index = load_index(&lines);
    assert_eq!(index.len(), 2);
    assert_eq!(save_index(&index), "a.rs 1 h1\nb.rs 3 h3\n");
}

#[test]
fn flag_check_and_clear() {
    let config = config_with(&["reviewed"]);
    let mut index = FlagIndex::new();
    assert!(flag_files(&mut index, &config, "tested", &[entry("a", 1, "x")]).is_err());
    let flagged = flag_files(&mut index, &config, "reviewed", &[entry("b", 5, "hb"), entry("a", 1, "ha")]).unwrap();
    assert_eq!(flagged.len(), 2);
    let probes = vec![
        FileProbe { exists: true, mtime: 2, hash: Some("ha".to_string()) },
        FileProbe { exists: false, mtime: 0, hash: None },
    ];
    let statuses = check_status(&index, &probes, CheckMode::Strict);
    assert_eq!(statuses[0].0.path, "a");
    assert_eq!(statuses[0].1, FileStatus::Clean);
    assert_eq!(statuses[1].1, FileStatus::Missing);
    assert_eq!(file_status(&entry("a", 1, "ha"), &probes[0], CheckMode::Fast), FileStatus::Dirty);
    assert_eq!(clear_flags(&mut index, &config, "reviewed", &["a".to_string(), "zzz".to_string()]).unwrap(), 1);
    assert_eq!(clear_flags(&mut index, &config, "reviewed", &[]).unwrap(), 1);
    assert_eq!(index.len(), 0);
    assert_eq!(config_path("/p"), "/p/.adi/flags.toml");
    assert_eq!(index_path("/p/", "reviewed"), "/p/.adi/cache/flags/reviewed");
    assert_eq!(compute_hash(b"hello"), "2cf24dba5f");
}
