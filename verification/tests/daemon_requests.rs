use hive::config::{ServiceState, SourceType};
use hive::daemon_answers::{answer_request, DaemonAnswer, DaemonFacts, DaemonRequest, ExposedAnswer, ServiceReport, ServiceStatusAnswer, StatusAnswer};
use hive::exposure::ExposedService;
use hive::observability::LogBuffer;
use hive::daemon_answers::{
    already_running_message, answer_command, hosts_of_routes, needs_proxy_server, ok_or_error, service_not_found,
    sources_to_stop, Answer, Command, ServiceCommand, SourceCommand,
};
use hive::daemon_answers::{log_stream_subscription, service_stream_subscription};
use hive::log_level::LogLevel;
use hive::source_manager::{SourceInfo, SourceStatus};

fn error(code: &str, message: &str) -> Answer {
    Answer::Error { code: code.to_string(), message: message.to_string() }
}

fn success(message: &str) -> Answer {
    Answer::Success { message: Some(message.to_string()) }
}

#[test]
fn source_and_service_requests_report_outcomes() {
    let remove = Command::Source { command: SourceCommand::Remove, name: "web".to_string() };
    assert_eq!(answer_command(&remove, Ok(())), success("Removed source: web"));
    assert_eq!(answer_command(&remove, Err("no such source".to_string())), error("REMOVE_SOURCE_FAILED", "no such source"));
    let disable = Command::Source { command: SourceCommand::Disable, name: "api".to_string() };
    assert_eq!(answer_command(&disable, Ok(())), success("Disabled source: api"));
    let restart = Command::Service { command: ServiceCommand::Restart, fqn: "app:db".to_string() };
    assert_eq!(answer_command(&restart, Ok(())), success("Restarted service: app:db"));
    assert_eq!(answer_command(&restart, Err("boom".to_string())), error("RESTART_SERVICE_FAILED", "boom"));
    let delete = Command::Service { command: ServiceCommand::Delete, fqn: "app:db".to_string() };
    assert_eq!(answer_command(&delete, Err("x".to_string())), error("DELETE_SERVICE_FAILED", "x"));
}

#[test]
fn create_update_shutdown_and_streaming() {
    let create = Command::CreateService { source_id: "app".to_string(), name: "db".to_string(), config_error: None };
    assert_eq!(answer_command(&create, Ok(())), success("Created service app:db"));
    assert_eq!(answer_command(&create, Err("exists".to_string())), error("CREATE_SERVICE_FAILED", "exists"));
    let bad = Command::CreateService {
        source_id: "app".to_string(),
        name: "db".to_string(),
        config_error: Some("missing field `runner`".to_string()),
    };
    assert_eq!(answer_command(&bad, Ok(())), error("INVALID_CONFIG", "Invalid service config: missing field `runner`"));
    let update = Command::UpdateService { fqn: "app:db".to_string() };
    assert_eq!(answer_command(&update, Ok(())), error("NOT_IMPLEMENTED", "UpdateService not yet implemented for 'app:db'"));
    assert_eq!(answer_command(&Command::Shutdown { graceful: true }, Ok(())), success("Graceful shutdown completed"));
    assert_eq!(answer_command(&Command::Shutdown { graceful: false }, Ok(())), success("Shutdown initiated"));
    assert_eq!(
        answer_command(&Command::Streaming, Ok(())),
        error("INTERNAL_ERROR", "Streaming requests should be handled separately")
    );
    assert_eq!(ok_or_error(Ok(()), "C", "done".to_string()), success("done"));
    assert_eq!(service_not_found("app:x"), error("NOT_FOUND", "Service 'app:x' not found"));
}

#[test]
fn graceful_shutdown_stops_running_sources() {
    let src = |name: &str, status: SourceStatus| SourceInfo {
        name: name.to_string(),
        path: "/p".to_string(),
        source_type: SourceType::Yaml,
        enabled: true,
        service_count: 1,
        status,
    };
    let sources = vec![src("a", SourceStatus::Running), src("b", SourceStatus::Stopped), src("c", SourceStatus::Running)];
    assert_eq!(sources_to_stop(&sources), vec!["a".to_string(), "c".to_string()]);
}

#[test]
fn start_up_decisions() {
    assert_eq!(already_running_message(4242), "Daemon is already running (pid: 4242). Use 'adi hive daemon stop' to stop it.");
    assert!(needs_proxy_server(1, &vec![]));
    assert!(needs_proxy_server(0, &vec!["127.0.0.1:8080".to_string()]));
    assert!(!needs_proxy_server(0, &vec![]));
    let hosts = vec![Some("a.test".to_string()), None, Some("b.local".to_string())];
    assert_eq!(hosts_of_routes(&hosts), vec!["a.test".to_string(), "b.local".to_string()]);
}

#[test]
fn stream_subscriptions() {
    let logs = log_stream_subscription(Some("app:web"), Some("WARN"));
    assert_eq!(logs.event_types, vec!["log".to_string()]);
    assert_eq!(logs.services, vec!["app:web".to_string()]);
    assert_eq!(logs.min_log_level, Some(LogLevel::Warn));
    let all = log_stream_subscription(None, Some("loud"));
    assert!(all.services.is_empty());
    assert_eq!(all.min_log_level, None);
    let svc = service_stream_subscription(Some("app"));
    assert_eq!(svc.event_types, vec!["service_event".to_string()]);
    assert_eq!(svc.services, vec!["app:*".to_string()]);
    assert!(service_stream_subscription(None).services.is_empty());
}

fn report(name: &str) -> ServiceReport {
    ServiceReport {
        name: name.to_string(),
        state: ServiceState::Running,
        pid: Some(42),
        ports: vec![("http".to_string(), 8080)],
        healthy: Some(true),
        restart_count: 1,
    }
}

fn facts() -> DaemonFacts {
    let src = |name: &str, status: SourceStatus, n: usize| SourceInfo {
        name: name.to_string(),
        path: "/p".to_string(),
        source_type: SourceType::Yaml,
        enabled: true,
        service_count: n,
        status,
    };
    DaemonFacts {
        sources: vec![src("a", SourceStatus::Running, 2), src("b", SourceStatus::Stopped, 3)],
        pid: 77,
        version: "0.1.0".to_string(),
        uptime_secs: 9,
        proxy_addresses: vec!["127.0.0.1:80".to_string()],
        outcome: Err("boom".to_string()),
        added: Ok("proj".to_string()),
        service: Ok(None),
        services: vec![("a".to_string(), report("web"))],
        exposed: vec![ExposedService {
            name: "db".to_string(),
            source_name: "a".to_string(),
            service_name: "postgres".to_string(),
            secret_hash: None,
            vars: vec![("URL".to_string(), "x".to_string())],
            ports: vec![("pg".to_string(), 5432)],
            healthy: true,
        }],
    }
}

#[test]
fn requests_are_dispatched_to_their_answers() {
    let buffer = LogBuffer::new(10);
    assert!(matches!(answer_request(&DaemonRequest::Ping, facts(), &buffer), DaemonAnswer::Pong));
    match answer_request(&DaemonRequest::Status, facts(), &buffer) {
        DaemonAnswer::Status(s) => assert_eq!(
            s,
            StatusAnswer {
                running: true,
                pid: Some(77),
                version: "0.1.0".to_string(),
                source_count: 2,
                running_services: 2,
                total_services: 5,
                proxy_addresses: vec!["127.0.0.1:80".to_string()],
                uptime_secs: 9,
            }
        ),
        other => panic!("unexpected {:?}", other),
    }
    match answer_request(&DaemonRequest::ListSources, facts(), &buffer) {
        DaemonAnswer::Sources(v) => assert_eq!(v.len(), 2),
        other => panic!("unexpected {:?}", other),
    }
    let add = DaemonRequest::AddSource { path: "/x".to_string(), name: None };
    assert!(matches!(answer_request(&add, facts(), &buffer), DaemonAnswer::SourceAdded { name } if name == "proj"));
    let mut f = facts();
    f.added = Err("no config".to_string());
    assert!(matches!(answer_request(&add, f, &buffer), DaemonAnswer::Reply(a) if a == error("ADD_SOURCE_FAILED", "no config")));
    let get = DaemonRequest::GetServiceStatus { fqn: "a:web".to_string() };
    assert!(matches!(answer_request(&get, facts(), &buffer), DaemonAnswer::Reply(a) if a == error("NOT_FOUND", "Service 'a:web' not found")));
    let mut f = facts();
    f.service = Err("Invalid FQN".to_string());
    assert!(matches!(answer_request(&get, f, &buffer), DaemonAnswer::Reply(a) if a == error("INVALID_FQN", "Invalid FQN")));
    let mut f = facts();
    f.service = Ok(Some(("a".to_string(), report("web"))));
    let expected = ServiceStatusAnswer {
        fqn: "a:web".to_string(),
        source: "a".to_string(),
        name: "web".to_string(),
        state: "running".to_string(),
        healthy: Some(true),
        pid: Some(42),
        ports: vec![("http".to_string(), 8080)],
        restart_count: 1,
    };
    match answer_request(&get, f, &buffer) {
        DaemonAnswer::Services(v) => assert_eq!(v, vec![expected]),
        other => panic!("unexpected {:?}", other),
    }
    match answer_request(&DaemonRequest::ListServices { source: None }, facts(), &buffer) {
        DaemonAnswer::Services(v) => assert_eq!(v[0].fqn, "a:web"),
        other => panic!("unexpected {:?}", other),
    }
    match answer_request(&DaemonRequest::ListExposed, facts(), &buffer) {
        DaemonAnswer::Exposed(v) => assert_eq!(
            v,
            vec![ExposedAnswer {
                name: "db".to_string(),
                source: "a".to_string(),
                service: "postgres".to_string(),
                healthy: true,
                var_names: vec!["URL".to_string()],
                port_names: vec!["pg".to_string()],
            }]
        ),
        other => panic!("unexpected {:?}", other),
    }
    let logs = DaemonRequest::GetLogs { fqn: None, lines: None, since: None, level: None };
    assert!(matches!(answer_request(&logs, facts(), &buffer), DaemonAnswer::Logs(l) if l.is_empty()));
    let update = DaemonRequest::Act(Command::UpdateService { fqn: "a:web".to_string() });
    assert!(matches!(answer_request(&update, facts(), &buffer), DaemonAnswer::Reply(a) if a == error("NOT_IMPLEMENTED", "UpdateService not yet implemented for 'a:web'")));
    let streaming = DaemonRequest::Act(Command::Streaming);
    assert!(matches!(answer_request(&streaming, facts(), &buffer), DaemonAnswer::Reply(a) if a == error("INTERNAL_ERROR", "Streaming requests should be handled separately")));
    let stop = DaemonRequest::Act(Command::Source { command: SourceCommand::Stop, name: "a".to_string() });
    assert!(matches!(answer_request(&stop, facts(), &buffer), DaemonAnswer::Reply(a) if a == error("STOP_SOURCE_FAILED", "boom")));
    let shutdown = DaemonRequest::Act(Command::Shutdown { graceful: true });
    assert!(matches!(answer_request(&shutdown, facts(), &buffer), DaemonAnswer::Reply(a) if a == success("Graceful shutdown completed")));
}
