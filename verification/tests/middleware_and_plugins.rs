use hive::duration::Duration;
use hive::log_level::LogLevel;
use hive::obs_plugins::{log_file_name, rotated_file_name, settings_key, FileObsPlugin, OutputFormat, StdoutObsPlugin};
use hive::observability::{HealthStatus, LogStream, MetricValue, ObservabilityEvent, ServiceEventType};
use hive::proxy_middleware::{
    chain_plan, forwarded_client, join_strings, kind_of, plugin_settings, split_range, CorsMiddleware, HeadersMiddleware,
    IpAddress, IpFilterMiddleware, IpRange, MiddlewareKind, ProxyPluginConfig, RateLimitBy, RateLimitMiddleware,
};
use hive::settings::{Scalar, Setting, Settings};

fn text(s: &str) -> Scalar {
    Scalar::Text(s.to_string())
}

fn settings(entries: Vec<(&str, Setting)>) -> Settings {
    Settings { entries: entries.into_iter().map(|(k, v)| (k.to_string(), v)).collect() }
}

fn v4(a: u8, b: u8, c: u8, d: u8) -> IpAddress {
    IpAddress::V4(((a as u32) << 24) | ((b as u32) << 16) | ((c as u32) << 8) | d as u32)
}

fn range(s: &str, addr: IpAddress) -> IpRange {
    let (_, prefix) = split_range(s);
    IpRange::from_parts(addr, prefix.as_deref()).unwrap()
}

#[test]
fn test_ip_range_parse() {
    let (addr, prefix) = split_range("10.0.0.0/8");
    assert_eq!(addr, "10.0.0.0");
    assert_eq!(prefix.as_deref(), Some("8"));
    let range = IpRange::from_parts(v4(10, 0, 0, 0), prefix.as_deref()).unwrap();
    assert!(range.contains(v4(10, 1, 2, 3)));
    assert!(!range.contains(v4(11, 0, 0, 1)));

    let (addr, prefix) = split_range("192.168.1.1");
    assert_eq!(addr, "192.168.1.1");
    assert_eq!(prefix, None);
    let single = IpRange::from_parts(v4(192, 168, 1, 1), prefix.as_deref()).unwrap();
    assert!(single.contains(v4(192, 168, 1, 1)));
    assert!(!single.contains(v4(192, 168, 1, 2)));
}

#[test]
fn ip_range_prefix_must_be_a_small_number() {
    assert_eq!(IpRange::from_parts(v4(10, 0, 0, 0), Some("abc")), None);
    assert_eq!(IpRange::from_parts(v4(10, 0, 0, 0), Some("256")), None);
    let r = IpRange::from_parts(v4(10, 0, 0, 0), Some("+16")).unwrap();
    assert_eq!(r.prefix_len, Some(16));
    assert!(r.contains(v4(10, 0, 255, 1)));
    assert!(!r.contains(v4(10, 1, 0, 0)));
    let six = IpRange::from_parts(IpAddress::V6(0x20010db8 << 96), Some("32")).unwrap();
    assert!(six.contains(IpAddress::V6((0x20010db8 << 96) | 1)));
    assert!(!six.contains(IpAddress::V6(0x20010db9 << 96)));
    assert!(!six.contains(v4(32, 1, 13, 184)));
}

#[test]
fn test_cors_config() {
    let config = settings(vec![
        ("origins", Setting::List(vec![text("https://example.com")])),
        ("methods", Setting::List(vec![text("GET"), text("POST")])),
        ("credentials", Setting::Scalar(Scalar::Bool(true))),
    ]);

    let cors = CorsMiddleware::from_config(&config);
    assert!(cors.is_origin_allowed("https://example.com"));
    assert!(!cors.is_origin_allowed("https://other.com"));
    assert!(cors.allow_credentials);
}

#[test]
fn cors_defaults_and_method_filtering() {
    let cors = CorsMiddleware::new();
    assert!(cors.is_origin_allowed("https://anything.example"));
    assert_eq!(cors.max_age, 86400);
    assert_eq!(join_strings(&cors.allowed_methods, ", "), "GET, POST, PUT, DELETE, PATCH, OPTIONS");

    let config = settings(vec![
        ("methods", Setting::List(vec![text("GET"), text("BAD METHOD"), Scalar::Bool(true), text("PURGE")])),
        ("max_age", Setting::Scalar(Scalar::Number(Some(4294967296 + 7)))),
    ]);
    let cors = CorsMiddleware::from_config(&config);
    assert_eq!(cors.allowed_methods, vec!["GET".to_string(), "PURGE".to_string()]);
    assert_eq!(cors.max_age, 7);
}

#[test]
fn cors_preflight_answer() {
    let cors = CorsMiddleware::new();
    let headers = cors.preflight("OPTIONS", Some("https://app.test")).unwrap();
    assert_eq!(
        headers,
        vec![
            ("access-control-allow-origin".to_string(), "https://app.test".to_string()),
            ("access-control-allow-methods".to_string(), "GET, POST, PUT, DELETE, PATCH, OPTIONS".to_string()),
            ("access-control-allow-headers".to_string(), "Content-Type, Authorization".to_string()),
            ("access-control-max-age".to_string(), "86400".to_string()),
        ]
    );
    assert_eq!(cors.preflight("GET", Some("https://app.test")), None);
    assert_eq!(cors.preflight("OPTIONS", None), None);

    let strict = CorsMiddleware::from_config(&settings(vec![
        ("origins", Setting::List(vec![text("https://ok.test")])),
        ("credentials", Setting::Scalar(Scalar::Bool(true))),
    ]));
    assert_eq!(strict.preflight("OPTIONS", Some("https://no.test")), None);
    let h = strict.preflight("OPTIONS", Some("https://ok.test")).unwrap();
    assert_eq!(h.len(), 5);
    assert_eq!(h[4], ("access-control-allow-credentials".to_string(), "true".to_string()));
}

#[test]
fn rate_limit_counts_within_a_window() {
    let config = settings(vec![
        ("requests", Setting::Scalar(Scalar::Number(Some(2)))),
        ("burst", Setting::Scalar(Scalar::Number(Some(1)))),
        ("window", Setting::Scalar(text("10s"))),
        ("by", Setting::Scalar(text("header:x-api-key"))),
    ]);
    let mut rl = RateLimitMiddleware::from_config(&config, Some(Duration { secs: 10, nanos: 0 }));
    assert_eq!(rl.by, RateLimitBy::Header);
    assert_eq!(rl.header_name.as_deref(), Some("x-api-key"));
    assert_eq!(rl.key_for(None, None, Some("k1"), "/"), "k1");
    assert_eq!(rl.key_for(None, None, None, "/"), "unknown");

    let t = |s: u64| Duration { secs: s, nanos: 0 };
    assert!(!rl.is_rate_limited("k1", t(0)));
    assert!(!rl.is_rate_limited("k1", t(1)));
    assert!(!rl.is_rate_limited("k1", t(2)));
    assert!(rl.is_rate_limited("k1", t(3)));
    assert!(!rl.is_rate_limited("k2", t(3)));
    assert!(!rl.is_rate_limited("k1", t(11)));
    assert!(!rl.is_rate_limited("k1", t(12)));

    let (body, headers) = rl.limited_answer();
    assert_eq!(body, "{\"error\": \"rate limited\"}");
    assert_eq!(headers[1], ("retry-after".to_string(), "10".to_string()));
}

#[test]
fn rate_limit_keys_by_address_and_path() {
    let rl = RateLimitMiddleware::new();
    assert_eq!(rl.max_requests, 1000);
    assert_eq!(rl.key_for(Some(" 1.2.3.4 , 5.6.7.8"), Some("9.9.9.9"), None, "/x"), "1.2.3.4");
    assert_eq!(rl.key_for(None, Some("9.9.9.9"), None, "/x"), "9.9.9.9");
    assert_eq!(forwarded_client("10.0.0.1"), "10.0.0.1");
    let by_path = RateLimitMiddleware::from_config(&settings(vec![("by", Setting::Scalar(text("path")))]), None);
    assert_eq!(by_path.by, RateLimitBy::Path);
    assert_eq!(by_path.key_for(None, None, None, "/api"), "/api");
    let unparsed = RateLimitMiddleware::from_config(&settings(vec![("window", Setting::Scalar(text("soon")))]), None);
    assert_eq!(unparsed.window, Duration { secs: 60, nanos: 0 });
}

#[test]
fn headers_are_removed_added_and_set() {
    let config = settings(vec![
        ("add", Setting::Table(vec![("X-Added".to_string(), text("1")), ("Host".to_string(), text("ignored"))])),
        ("remove", Setting::List(vec![text("X-Secret")])),
        ("set", Setting::Table(vec![("X-Forced".to_string(), text("yes")), ("Bad Name".to_string(), text("v"))])),
    ]);
    let m = HeadersMiddleware::from_config(&config);
    let mut h = vec![
        ("host".to_string(), "example.com".to_string()),
        ("x-secret".to_string(), "s1".to_string()),
        ("x-forced".to_string(), "no".to_string()),
        ("x-secret".to_string(), "s2".to_string()),
    ];
    m.apply(&mut h);
    let mut got = h.clone();
    got.sort();
    assert_eq!(
        got,
        vec![
            ("host".to_string(), "example.com".to_string()),
            ("x-added".to_string(), "1".to_string()),
            ("x-forced".to_string(), "yes".to_string()),
        ]
    );
}

#[test]
fn ip_filter_deny_then_allow() {
    let allow = vec![range("10.0.0.0/8", v4(10, 0, 0, 0))];
    let deny = vec![range("10.0.0.5", v4(10, 0, 0, 5))];
    let f = IpFilterMiddleware::from_config(
        &settings(vec![("trust_xff", Setting::Scalar(Scalar::Bool(true)))]),
        allow,
        deny,
    );
    assert!(f.trust_xff);
    assert!(f.is_allowed(v4(10, 1, 1, 1)));
    assert!(!f.is_allowed(v4(10, 0, 0, 5)));
    assert!(!f.is_allowed(v4(192, 168, 0, 1)));
    assert!(!f.blocks(None));
    assert!(f.blocks(Some(v4(8, 8, 8, 8))));
    assert_eq!(f.client_ip(Some(v4(1, 1, 1, 1)), Some(v4(2, 2, 2, 2))), Some(v4(1, 1, 1, 1)));
    assert_eq!(IpFilterMiddleware::new().client_ip(Some(v4(1, 1, 1, 1)), Some(v4(2, 2, 2, 2))), Some(v4(2, 2, 2, 2)));
    assert!(IpFilterMiddleware::new().is_allowed(v4(8, 8, 8, 8)));
}

#[test]
fn chain_keeps_known_middleware_in_order() {
    let plugin = |t: &str, own: Option<Settings>| ProxyPluginConfig {
        plugin_type: t.to_string(),
        config: own.map(|s| vec![(t.to_string(), s)]).unwrap_or_default(),
    };
    let plugins = vec![
        plugin("cors", Some(settings(vec![("credentials", Setting::Scalar(Scalar::Bool(true)))]))),
        plugin("compress", None),
        plugin("ip-filter", None),
        plugin("rate-limit", None),
        plugin("headers", None),
    ];
    assert_eq!(
        chain_plan(&plugins),
        vec![
            (MiddlewareKind::Cors, 0),
            (MiddlewareKind::IpFilter, 2),
            (MiddlewareKind::RateLimit, 3),
            (MiddlewareKind::Headers, 4),
        ]
    );
    assert_eq!(kind_of("ip-filter"), Some(MiddlewareKind::IpFilter));
    assert_eq!(kind_of("gzip"), None);
    assert!(plugin_settings(&plugins[0]).is_some());
    assert!(plugin_settings(&plugins[2]).is_none());
}

#[test]
fn stdout_plugin_settings_and_lines() {
    let mut p = StdoutObsPlugin::new();
    p.init(&settings(vec![
        ("format", Setting::Scalar(text("compact"))),
        ("level", Setting::Scalar(text("WARNING"))),
        ("colors", Setting::Scalar(Scalar::Bool(false))),
    ]));
    assert_eq!(p.format, OutputFormat::Compact);
    assert_eq!(p.min_level, LogLevel::Warn);
    assert!(!p.colors);

    let log = ObservabilityEvent::Log {
        timestamp: 0,
        service_fqn: "svc".to_string(),
        level: LogLevel::Info,
        message: "hello".to_string(),
        stream: LogStream::Stdout,
    };
    assert!(!p.handles(&log));
    assert_eq!(p.format_compact(&log).as_deref(), Some("Info|svc|hello"));
    assert_eq!(p.format_pretty(&log).as_deref(), Some("[1970-01-01T00:00:00.000] INFO  [svc] hello"));

    let health = ObservabilityEvent::HealthCheck {
        timestamp: 1_500_000,
        service_fqn: "svc".to_string(),
        check_type: "http".to_string(),
        status: HealthStatus::Healthy,
        latency_ms: 3,
        error: None,
    };
    assert!(p.handles(&health));
    assert_eq!(p.format_pretty(&health).as_deref(), Some("[1970-01-01T00:00:01.500] HEALTH [svc] HEALTHY"));
    let started = ObservabilityEvent::ServiceEvent {
        timestamp: 0,
        service_fqn: "svc".to_string(),
        event: ServiceEventType::BuildStarted,
    };
    assert_eq!(p.format_pretty(&started).as_deref(), Some("[1970-01-01T00:00:00.000] SERVICE [svc] BuildStarted"));
    assert_eq!(p.format_compact(&started), None);

    let mut json = StdoutObsPlugin::new();
    json.init(&settings(vec![("format", Setting::Scalar(text("json"))), ("level", Setting::Scalar(text("nope")))]));
    assert_eq!(json.format, OutputFormat::Json);
    assert_eq!(json.min_level, LogLevel::Info);
    assert_eq!(json.format_event(&log), None);
    assert_eq!(settings_key("stdout"), "hive.obs.stdout");
}

#[test]
fn file_plugin_settings_and_names() {
    let mut p = FileObsPlugin::new("/var/log/hive".to_string());
    p.init(&settings(vec![
        ("max_size", Setting::Scalar(text("5MB"))),
        ("rotate", Setting::Scalar(Scalar::Bool(true))),
        ("level", Setting::Scalar(text("error"))),
    ]));
    assert_eq!(p.max_size, 5 * 1024 * 1024);
    assert_eq!(p.min_level, LogLevel::Error);
    assert!(p.needs_rotation(5 * 1024 * 1024 + 1));
    assert!(!p.needs_rotation(5 * 1024 * 1024));
    let mut q = FileObsPlugin::new("d".to_string());
    q.init(&settings(vec![("max_size", Setting::Scalar(text("huge")))]));
    assert_eq!(q.max_size, 10 * 1024 * 1024);
    assert_eq!(log_file_name("app:web"), "app:web.log");
    assert_eq!(rotated_file_name("web", 86_400_000_000).as_deref(), Some("web.19700102000000.log"));
}

#[test]
fn zero_prefix_holds_every_address_of_its_family() {
    let all4 = range("0.0.0.0/0", v4(0, 0, 0, 0));
    assert!(all4.contains(v4(10, 1, 2, 3)));
    assert!(all4.contains(v4(255, 255, 255, 255)));
    assert!(!all4.contains(IpAddress::V6(1)));
    let all6 = range("::/0", IpAddress::V6(0));
    assert!(all6.contains(IpAddress::V6(u128::MAX)));
    assert!(!all6.contains(v4(1, 2, 3, 4)));
    let ten = range("10.0.0.0/8", v4(10, 0, 0, 0));
    assert!(ten.contains(v4(10, 1, 2, 3)));
    assert!(!ten.contains(v4(11, 0, 0, 1)));
}

#[test]
fn metric_lines_carry_their_value() {
    let p = StdoutObsPlugin::new();
    let m = ObservabilityEvent::Metric {
        timestamp: 2_000_000,
        service_fqn: "svc".to_string(),
        name: "cpu".to_string(),
        value: MetricValue::Gauge { bits: 1.5f64.to_bits() },
        labels: vec![],
    };
    assert_eq!(p.format_pretty(&m), None);
    assert_eq!(p.metric_line(&m, "Gauge(1.5)").as_deref(), Some("[1970-01-01T00:00:02.000] METRIC [svc] cpu: Gauge(1.5)"));
    match &m {
        ObservabilityEvent::Metric { value: MetricValue::Gauge { bits }, .. } => assert_eq!(f64::from_bits(*bits), 1.5),
        _ => panic!("a metric"),
    }
    let log = ObservabilityEvent::Log {
        timestamp: 0,
        service_fqn: "svc".to_string(),
        level: LogLevel::Info,
        message: "x".to_string(),
        stream: LogStream::Stdout,
    };
    assert_eq!(p.metric_line(&log, "1"), None);
}
