use hive::dns::{collect_tlds, normalize_hostname, DnsConfig, DnsServer, Ipv4Addr, QueryAnswer};
use hive::error_pages::{format_logs, format_logs_plain, html_escape, is_plain_format, render, shortcut_url};
use hive::error_pages::{bad_gateway_text, bad_request_text, error_vars, not_found_text};
use hive::log_level::LogLevel;
use hive::observability::{LogLine, LogStream};
use hive::service_proxy::{compute_target_path, normalize_path, parse_timeout, resolve_port, Route, ServiceProxyState};

fn line(level: LogLevel, message: &str, stream: LogStream) -> LogLine {
    LogLine { timestamp: 0, service_fqn: "default:web".to_string(), level, message: message.to_string(), stream }
}

#[test]
fn test_html_escape() {
    assert_eq!(html_escape("<script>"), "&lt;script&gt;");
    assert_eq!(html_escape("a&b"), "a&amp;b");
    assert_eq!(html_escape("\"hi\""), "&quot;hi&quot;");
    assert_eq!(html_escape("it's"), "it&#39;s");
    assert_eq!(html_escape("plain"), "plain");
}

#[test]
fn test_render_replaces_placeholders() {
    let template = "<p>{{greeting}}, {{name}}!</p>";
    let vars = vec![("greeting", "Hello".to_string()), ("name", "<b>World</b>".to_string())];

    let result = render(template, &vars, &[]);
    assert_eq!(result, "<p>Hello, &lt;b&gt;World&lt;/b&gt;!</p>");
}

#[test]
fn test_render_raw_keys_skip_escaping() {
    let template = "<div>{{content}}</div>";
    let vars = vec![("content", "<b>bold</b>".to_string())];

    let result = render(template, &vars, &["content"]);
    assert_eq!(result, "<div><b>bold</b></div>");
}

#[test]
fn test_format_logs_empty() {
    assert_eq!(format_logs(&[]), "");
}

#[test]
fn test_format_logs_renders_lines() {
    let logs = vec![
        line(LogLevel::Error, "connection refused", LogStream::Stderr),
        line(LogLevel::Info, "starting up", LogStream::Stdout),
    ];

    let html = format_logs(&logs);
    assert!(html.contains("log-error"));
    assert!(html.contains("log-info"));
    assert!(html.contains("connection refused"));
    assert!(html.contains("starting up"));
    assert!(html.contains("recent logs"));
}

#[test]
fn test_format_logs_escapes_message() {
    let logs = vec![line(LogLevel::Warn, "<script>alert('xss')</script>", LogStream::Stderr)];

    let html = format_logs(&logs);
    assert!(!html.contains("<script>"));
    assert!(html.contains("&lt;script&gt;"));
}

#[test]
fn test_is_plain_format() {
    assert!(is_plain_format(Some("format=plain")));
    assert!(is_plain_format(Some("foo=bar&format=plain")));
    assert!(is_plain_format(Some("format=plain&other=1")));
    assert!(!is_plain_format(Some("format=html")));
    assert!(!is_plain_format(Some("")));
    assert!(!is_plain_format(None));
}

#[test]
fn test_format_logs_plain_empty() {
    assert_eq!(format_logs_plain(&[]), "");
}

#[test]
fn test_format_logs_plain_renders() {
    let logs = vec![line(LogLevel::Error, "connection refused", LogStream::Stderr)];

    let text = format_logs_plain(&logs);
    assert!(text.contains("recent logs"));
    assert!(text.contains("[ERROR]"));
    assert!(text.contains("connection refused"));
}

#[test]
fn log_lines_show_utc_time_of_day() {
    let mut l = line(LogLevel::Notice, "m", LogStream::Stdout);
    l.timestamp = (13 * 3600 + 5 * 60 + 9) * 1_000_000 + 86_400_000_000;
    assert_eq!(format_logs_plain(&[l]), "\n--- recent logs ---\n13:05:09 [NOTICE] m\n");
    let mut l = line(LogLevel::Debug, "x", LogStream::Stdout);
    l.timestamp = -1;
    assert_eq!(
        format_logs(&[l]),
        "<div class=\"spacer\"></div><div class=\"logs-section\"><div class=\"logs-title\">--- recent logs ---</div><div class=\"logs\"><div class=\"log-line log-debug\">23:59:59 [DEBUG] x</div></div></div>"
    );
}

#[test]
fn plain_format_needs_a_whole_parameter() {
    assert!(!is_plain_format(Some("xformat=plain")));
    assert!(!is_plain_format(Some("format=plainx")));
    assert_eq!(shortcut_url("hive-error-404"), "https://adi.the-ihor.com/sc/hive-error-404");
}

#[test]
fn test_normalize_hostname() {
    assert_eq!(normalize_hostname("MyApp.Test."), "myapp.test");
    assert_eq!(normalize_hostname("myapp.test"), "myapp.test");
}

#[test]
fn test_collect_tlds() {
    let hosts = vec!["app.test".to_string(), "api.test".to_string(), "site.local".to_string()];
    let tlds = collect_tlds(&hosts);
    assert!(tlds.iter().any(|t| t == "test"));
    assert!(tlds.iter().any(|t| t == "local"));
    assert_eq!(tlds.len(), 2);
}

#[test]
fn test_dns_server_records() {
    let mut server = DnsServer::new(DnsConfig::default());
    let ip = Ipv4Addr::new(127, 0, 0, 1);

    server.add_record("myapp.test", ip);
    assert_eq!(server.lookup("myapp.test"), Some(ip));
    assert_eq!(server.lookup("MYAPP.TEST"), Some(ip));

    server.remove_record("myapp.test");
    assert_eq!(server.lookup("myapp.test"), None);
}

#[test]
fn test_sync_records() {
    let mut server = DnsServer::new(DnsConfig::default());
    let ip = Ipv4Addr::new(127, 0, 0, 1);

    server.add_record("old.test", ip);
    server.sync_records(&["new.test".to_string()], ip);

    assert_eq!(server.lookup("old.test"), None);
    assert_eq!(server.lookup("new.test"), Some(ip));
}

#[test]
fn dns_defaults_and_names() {
    let c = DnsConfig::default();
    assert!(!c.enabled);
    assert_eq!(c.bind, "127.0.0.1:15353");
    assert_eq!(c.upstream, "8.8.8.8:53");
    assert_eq!(c.ttl, 60);
    let mut server = DnsServer::new(c);
    server.add_record("A.test..", Ipv4Addr::new(10, 0, 0, 2));
    assert_eq!(server.hostnames(), vec!["a.test".to_string()]);
    assert_eq!(collect_tlds(&["x.COM.".to_string(), "local".to_string()]), vec!["com".to_string(), "local".to_string()]);
}

#[test]
fn dns_queries_answered_or_forwarded() {
    let mut server = DnsServer::new(DnsConfig::default());
    let ip = Ipv4Addr::new(127, 0, 0, 1);
    server.add_record("myapp.test", ip);
    assert_eq!(server.answer_query(Some(("MyApp.test.", true))), Some(QueryAnswer::Local { address: ip, ttl: 60 }));
    assert_eq!(server.answer_query(Some(("myapp.test", false))), Some(QueryAnswer::Forward));
    assert_eq!(server.answer_query(Some(("other.test", true))), Some(QueryAnswer::Forward));
    assert_eq!(server.answer_query(None), None);
}

fn route(service: &str, host: Option<&str>, path: &str, port: u16, strip: bool) -> Route {
    Route {
        service_name: service.to_string(),
        source: "test".to_string(),
        host: host.map(|h| h.to_string()),
        path: path.to_string(),
        port,
        strip_prefix: strip,
        timeout_ms: 60000,
    }
}

#[test]
fn test_normalize_path() {
    assert_eq!(normalize_path("/api"), "/api");
    assert_eq!(normalize_path("/api/"), "/api");
    assert_eq!(normalize_path("api"), "/api");
    assert_eq!(normalize_path("/"), "/");
}

#[test]
fn test_route_matching() {
    let mut state = ServiceProxyState::new();

    state.add_route(route("auth", Some("adi.test"), "/api/auth", 8012, true));
    state.add_route(route("web", Some("adi.test"), "/", 8013, false));

    let found = state.find_route(Some("adi.test"), "/api/auth/login");
    assert!(found.is_some());
    assert_eq!(found.unwrap().service_name, "auth");

    let found = state.find_route(Some("adi.test"), "/dashboard");
    assert!(found.is_some());
    assert_eq!(found.unwrap().service_name, "web");

    let found = state.find_route(Some("other.local"), "/api/auth/login");
    assert!(found.is_none());
}

#[test]
fn test_resolve_port() {
    let ports = vec![("http".to_string(), 8080u16), ("grpc".to_string(), 9090u16)];

    assert_eq!(resolve_port(&None, &ports), Some(8080));
    assert_eq!(resolve_port(&Some("{{runtime.port.http}}".to_string()), &ports), Some(8080));
    assert_eq!(resolve_port(&Some("{{runtime.port.grpc}}".to_string()), &ports), Some(9090));
    assert_eq!(resolve_port(&Some("3000".to_string()), &ports), Some(3000));
}

#[test]
fn routes_fall_back_and_update() {
    let mut state = ServiceProxyState::new();
    state.add_route(route("web", None, "/", 1, false));
    state.add_route(route("api", Some("a.test"), "/api", 2, true));
    assert_eq!(state.find_route(Some("a.test"), "/other").unwrap().service_name, "web");
    assert_eq!(state.find_route(None, "/api").unwrap().service_name, "web");
    state.update_service_port("web", 7);
    assert_eq!(state.find_route(None, "/x").unwrap().port, 7);
    state.remove_service_routes("web");
    assert!(state.find_route(None, "/x").is_none());
    assert_eq!(state.list_routes().len(), 1);
    state.clear_routes();
    assert!(state.list_routes().is_empty());
}

#[test]
fn target_paths_and_timeouts() {
    let r = route("api", None, "/api", 1, true);
    assert_eq!(compute_target_path(&r, "/api/users", Some("a=1")), "/users?a=1");
    assert_eq!(compute_target_path(&r, "/api", None), "/");
    assert_eq!(compute_target_path(&r, "/apix", None), "/x");
    let keep = route("api", None, "/api", 1, false);
    assert_eq!(compute_target_path(&keep, "/api/users", None), "/api/users");
    assert_eq!(parse_timeout(None), 60_000);
    assert_eq!(parse_timeout(Some(hive::duration::Duration::from_secs(5))), 5_000);
    assert_eq!(resolve_port(&Some("nope".to_string()), &[]), None);
    assert_eq!(resolve_port(&None, &[]), None);
}

#[test]
fn plain_error_pages() {
    assert_eq!(
        not_found_text("No route", "/x", "a.test", "1.2.3", "2024-01-01 00:00:00 UTC"),
        "WARN 404 Not Found\n\nNo route\n\npath      /x\nhost      a.test\n\nhive 1.2.3 | 2024-01-01 00:00:00 UTC\n"
    );
    assert_eq!(
        bad_request_text("Bad", "/", "h", "v", "t"),
        "ERROR 400 Bad Request\n\nBad\n\npath      /\nhost      h\n\nhive v | t\n"
    );
    assert_eq!(
        bad_gateway_text("Down", "/p", "h", "web", None, "v", "t"),
        "ERROR 502 Bad Gateway\n\nDown\n\nservice   web\npath      /p\nhost      h\n\nhive v | t\n"
    );
    let logs = vec![line(LogLevel::Error, "boom", LogStream::Stderr)];
    let with_logs = bad_gateway_text("Down", "/p", "h", "web", Some(&logs), "v", "t");
    assert!(with_logs.contains("\n--- recent logs ---\n00:00:00 [ERROR] boom\n"));
    let vars = error_vars("m", "/p", "h", 502, "v", "t");
    assert_eq!(vars[0], ("message", "m".to_string()));
    assert_eq!(vars[5], ("link_llm", "https://adi.the-ihor.com/sc/hive-error-502-llm".to_string()));
    assert_eq!(vars[6], ("link_user", "https://adi.the-ihor.com/sc/hive-error-502".to_string()));
}

#[test]
fn routes_are_listed_group_by_group() {
    let mut state = ServiceProxyState::new();
    state.add_route(route("web", None, "/", 1, false));
    state.add_route(route("api", Some("a.test"), "/api", 2, true));
    state.add_route(route("docs", Some("a.test"), "/api/docs", 3, true));
    let listed: Vec<String> = state.list_routes().into_iter().map(|r| r.service_name).collect();
    assert_eq!(listed.len(), 3);
    let docs = listed.iter().position(|n| n == "docs").unwrap();
    let api = listed.iter().position(|n| n == "api").unwrap();
    assert_eq!(api, docs + 1);
    assert!(listed.contains(&"web".to_string()));
    state.update_service_port("api", 9);
    assert_eq!(state.find_route(Some("a.test"), "/api/x").unwrap().port, 9);
    assert_eq!(state.find_route(Some("a.test"), "/api/docs/x").unwrap().port, 3);
}

#[test]
fn dns_names_are_listed_once_each() {
    let mut server = DnsServer::new(DnsConfig::default());
    server.add_record("b.test", Ipv4Addr::new(10, 0, 0, 1));
    server.add_record("A.TEST", Ipv4Addr::new(10, 0, 0, 2));
    server.add_record("b.test.", Ipv4Addr::new(10, 0, 0, 3));
    let mut names = server.hostnames();
    names.sort();
    assert_eq!(names, vec!["a.test".to_string(), "b.test".to_string()]);
    assert_eq!(server.lookup("b.test"), Some(Ipv4Addr::new(10, 0, 0, 3)));
}
