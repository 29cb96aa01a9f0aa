use hive::parser::project_root_candidates;
use hive::clock::signed_micros;
use hive::duration::Duration;
use hive::config::{RestartPolicy, ServiceState, SourceType};
use hive::service_manager::{exit_action, restart_delay_secs, should_restart, ExitAction};
use hive::signaling_control;
use hive::sizes::{extract_dns_port, parse_size, parse_timeout_ms};
use hive::source_manager::{self, detect_source_type, SourceProbe};

#[test]
fn test_parse_size() {
    assert_eq!(parse_size("1024"), Some(1024));
    assert_eq!(parse_size("10KB"), Some(10 * 1024));
    assert_eq!(parse_size("10MB"), Some(10 * 1024 * 1024));
    assert_eq!(parse_size("1GB"), Some(1024 * 1024 * 1024));
}

#[test]
fn sizes_in_other_spellings() {
    assert_eq!(parse_size(" 5 kb "), Some(5 * 1024));
    assert_eq!(parse_size("12b"), Some(12));
    assert_eq!(parse_size("ten"), None);
    assert_eq!(parse_size(""), None);
}

#[test]
fn test_parse_timeout_ms() {
    assert_eq!(parse_timeout_ms("100ms"), Some(100));
    assert_eq!(parse_timeout_ms("5s"), Some(5000));
    assert_eq!(parse_timeout_ms("2m"), Some(120000));
    assert_eq!(parse_timeout_ms("1000"), Some(1000));
}

#[test]
fn timeouts_that_are_not() {
    assert_eq!(parse_timeout_ms(" 3s "), Some(3000));
    assert_eq!(parse_timeout_ms("-2s"), Some(-2000));
    assert_eq!(parse_timeout_ms("soon"), None);
    assert_eq!(parse_timeout_ms("5 s"), None);
}

#[test]
fn test_extract_dns_port() {
    assert_eq!(extract_dns_port("127.0.0.1:15353").unwrap(), 15353);
    assert_eq!(extract_dns_port("0.0.0.0:5353").unwrap(), 5353);
}

#[test]
fn test_extract_dns_port_invalid() {
    assert!(extract_dns_port("invalid").is_err());
}

#[test]
fn dns_port_error_message() {
    assert_eq!(extract_dns_port("host:99999").unwrap_err(), "DNS bind address must contain a valid port: host:99999");
    assert_eq!(extract_dns_port("53").unwrap(), 53);
}

#[test]
fn signaling_control_test_parse_fqn() {
    let (source, service) = signaling_control::parse_fqn("default:postgres").unwrap();
    assert_eq!(source, "default");
    assert_eq!(service, "postgres");

    let (source, service) = signaling_control::parse_fqn("my-project:auth-service").unwrap();
    assert_eq!(source, "my-project");
    assert_eq!(service, "auth-service");

    assert!(signaling_control::parse_fqn("postgres").is_err());
}

#[test]
fn source_manager_test_parse_fqn() {
    let (source, service) = source_manager::parse_fqn("default:postgres").unwrap();
    assert_eq!(source, "default");
    assert_eq!(service, "postgres");

    let (source, service) = source_manager::parse_fqn("my-project:auth").unwrap();
    assert_eq!(source, "my-project");
    assert_eq!(service, "auth");

    assert!(source_manager::parse_fqn("postgres").is_err());
}

#[test]
fn fqn_split_at_first_colon_and_messages() {
    let (a, b) = signaling_control::parse_fqn("a:b:c").unwrap();
    assert_eq!((a.as_str(), b.as_str()), ("a", "b:c"));
    assert_eq!(signaling_control::parse_fqn("x").unwrap_err(), "Invalid FQN format: 'x'. Expected 'source:service'");
    assert_eq!(
        source_manager::parse_fqn("x").unwrap_err(),
        "Service name 'x' must include source (e.g., 'source:service'). Use 'adi hive status' to see available sources."
    );
}

#[test]
fn test_detect_source_type() {
    let probe = SourceProbe { extension: Some("db".to_string()), is_dir: false, has_hive_db: false, has_hive_yaml: false };
    assert_eq!(detect_source_type(&probe), Some(SourceType::Sqlite));
}

#[test]
fn source_types_of_directories() {
    let dir = |db: bool, yaml: bool| SourceProbe { extension: None, is_dir: true, has_hive_db: db, has_hive_yaml: yaml };
    assert_eq!(detect_source_type(&dir(true, true)), Some(SourceType::Sqlite));
    assert_eq!(detect_source_type(&dir(false, true)), Some(SourceType::Yaml));
    assert_eq!(detect_source_type(&dir(false, false)), None);
}

#[test]
fn restart_decisions() {
    assert!(!should_restart(RestartPolicy::Never, 1, None));
    assert!(should_restart(RestartPolicy::OnFailure, 2, None));
    assert!(!should_restart(RestartPolicy::OnFailure, 0, None));
    assert!(should_restart(RestartPolicy::UnlessStopped, 0, Some(false)));
    assert!(!should_restart(RestartPolicy::UnlessStopped, 0, Some(true)));
    assert_eq!(restart_delay_secs(0), 1);
    assert_eq!(restart_delay_secs(3), 8);
    assert_eq!(restart_delay_secs(5), 32);
    assert_eq!(restart_delay_secs(6), 60);
    assert_eq!(restart_delay_secs(100), 60);
    match exit_action(RestartPolicy::Always, -3, None, 1) {
        ExitAction::Restart { restart_count, delay_secs, last_error } => {
            assert_eq!(restart_count, 2);
            assert_eq!(delay_secs, 4);
            assert_eq!(last_error, "Exit code: -3");
        }
        _ => panic!("expected a restart"),
    }
    match exit_action(RestartPolicy::Never, 0, None, 0) {
        ExitAction::Settle { state } => assert_eq!(state, ServiceState::Exited),
        _ => panic!("expected to settle"),
    }
    assert_eq!(ServiceState::PortConflict.as_str(), "port conflict");
}

#[test]
fn clock_readings_in_micros() {
    assert_eq!(signed_micros(false, Duration { secs: 2, nanos: 345_678_901 }), 2_345_678);
    assert_eq!(signed_micros(true, Duration { secs: 1, nanos: 999 }), -1_000_000);
    assert_eq!(signed_micros(false, Duration { secs: u64::MAX, nanos: 0 }), i64::MAX);
}

#[test]
fn project_roots_are_looked_for_upwards() {
    assert_eq!(
        project_root_candidates("/srv/app/sub"),
        vec!["/srv/app/sub".to_string(), "/srv/app".to_string(), "/srv".to_string(), "/".to_string()]
    );
    assert_eq!(project_root_candidates("a/b"), vec!["a/b".to_string(), "a".to_string(), "".to_string()]);
}
