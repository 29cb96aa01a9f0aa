use hive::daemon_startup::{DaemonConfig, DaemonStartup, StartupAction, StartupEvent, StartupPhase};
use hive::dns::DnsConfig;

#[test]
fn test_daemon_config_paths() {
    let config = DaemonConfig::new("/tmp/test-hive");
    assert!(config.socket_path().ends_with("adi-hive.sock"));
    assert!(config.pid_path().ends_with("adi-hive.pid"));
    assert_eq!(config.base_dir(), "/tmp/test-hive");
}

fn fail_text(a: StartupAction) -> String {
    match a {
        StartupAction::Fail(m) => m,
        other => panic!("expected a failure, got {:?}", other),
    }
}

#[test]
fn a_running_daemon_stops_the_start() {
    let (mut s, first) = DaemonStartup::new(DaemonConfig::new("/d"), &vec![]);
    assert!(matches!(first, StartupAction::CheckRunning));
    assert_eq!(
        fail_text(s.step(StartupEvent::Checked(Some(12)))),
        "Daemon is already running (pid: 12). Use 'adi hive daemon stop' to stop it."
    );
    assert_eq!(s.phase, StartupPhase::Finished);
}

#[test]
fn plain_start_listens_then_stops() {
    let (mut s, _) = DaemonStartup::new(DaemonConfig::new("/d"), &vec![]);
    assert!(matches!(s.step(StartupEvent::Checked(None)), StartupAction::WritePid));
    assert!(matches!(s.step(StartupEvent::Done), StartupAction::InitSources));
    assert!(matches!(s.step(StartupEvent::Done), StartupAction::Listen));
    assert!(matches!(s.step(StartupEvent::Done), StartupAction::Stop { tlds } if tlds.is_empty()));
}

#[test]
fn full_start_with_signaling_proxy_and_dns() {
    let mut dns = DnsConfig::default();
    dns.enabled = true;
    let mut config = DaemonConfig::new("/d").with_dns(dns).with_signaling("cocoons".to_string());
    config.proxy_bind = vec!["127.0.0.1:80".to_string()];
    let routes = vec![Some("app.test".to_string()), None, Some("api.local".to_string())];
    let (mut s, _) = DaemonStartup::new(config, &routes);
    s.step(StartupEvent::Checked(None));
    s.step(StartupEvent::Done);
    assert!(matches!(s.step(StartupEvent::Done), StartupAction::AddVirtualSource { source_id } if source_id == "cocoons"));
    assert!(matches!(s.step(StartupEvent::Done), StartupAction::StartProxy { addresses } if addresses == vec!["127.0.0.1:80".to_string()]));
    match s.step(StartupEvent::Done) {
        StartupAction::StartDns { hosts } => assert_eq!(hosts, vec!["app.test".to_string(), "api.local".to_string()]),
        other => panic!("unexpected {:?}", other),
    }
    match s.step(StartupEvent::Done) {
        StartupAction::WriteResolvers { mut tlds, port } => {
            tlds.sort();
            assert_eq!(tlds, vec!["local".to_string(), "test".to_string()]);
            assert_eq!(port, 15353);
        }
        other => panic!("unexpected {:?}", other),
    }
    assert!(matches!(s.step(StartupEvent::Failed("read-only".to_string())), StartupAction::WatchRoutes { port: 15353 }));
    assert!(matches!(s.step(StartupEvent::Done), StartupAction::Listen));
    assert!(matches!(s.step(StartupEvent::Done), StartupAction::Stop { tlds } if tlds.len() == 2));
}

#[test]
fn failures_while_starting() {
    let (mut s, _) = DaemonStartup::new(DaemonConfig::new("/d"), &vec![]);
    s.step(StartupEvent::Checked(None));
    assert_eq!(fail_text(s.step(StartupEvent::Failed("denied".to_string()))), "Failed to write PID file: denied");

    let mut dns = DnsConfig::default();
    dns.enabled = true;
    dns.bind = "127.0.0.1".to_string();
    let (mut s, _) = DaemonStartup::new(DaemonConfig::new("/d").with_dns(dns), &vec![]);
    s.step(StartupEvent::Checked(None));
    s.step(StartupEvent::Done);
    assert!(matches!(s.step(StartupEvent::Done), StartupAction::StartDns { .. }));
    assert_eq!(
        fail_text(s.step(StartupEvent::Failed("port in use".to_string()))),
        "DNS bind address must contain a valid port: 127.0.0.1"
    );
}
