use hive::health::HealthStatus;
use hive::log_level::LogLevel;
use hive::observability::{EventSubscription, LogBuffer, LogLine, LogStream, ObservabilityEvent, ServiceEventType};

fn log_line(service: &str, message: String, timestamp: i64) -> LogLine {
    LogLine { timestamp, service_fqn: service.to_string(), level: LogLevel::Info, message, stream: LogStream::Stdout }
}

#[test]
fn test_log_level_ordering() {
    assert!(LogLevel::Trace < LogLevel::Debug);
    assert!(LogLevel::Debug < LogLevel::Info);
    assert!(LogLevel::Info < LogLevel::Notice);
    assert!(LogLevel::Notice < LogLevel::Warn);
    assert!(LogLevel::Warn < LogLevel::Error);
    assert!(LogLevel::Error < LogLevel::Fatal);
}

#[test]
fn test_log_level_parse() {
    assert_eq!("trace".parse::<LogLevel>().unwrap(), LogLevel::Trace);
    assert_eq!("debug".parse::<LogLevel>().unwrap(), LogLevel::Debug);
    assert_eq!("info".parse::<LogLevel>().unwrap(), LogLevel::Info);
    assert_eq!("notice".parse::<LogLevel>().unwrap(), LogLevel::Notice);
    assert_eq!("warn".parse::<LogLevel>().unwrap(), LogLevel::Warn);
    assert_eq!("warning".parse::<LogLevel>().unwrap(), LogLevel::Warn);
    assert_eq!("error".parse::<LogLevel>().unwrap(), LogLevel::Error);
    assert_eq!("fatal".parse::<LogLevel>().unwrap(), LogLevel::Fatal);
}

#[test]
fn log_level_names_and_aliases() {
    assert_eq!(LogLevel::parse("CRIT").unwrap(), LogLevel::Fatal);
    assert_eq!(LogLevel::parse("Err").unwrap(), LogLevel::Error);
    assert_eq!(LogLevel::parse("loud").unwrap_err(), "Unknown log level: loud");
    assert_eq!(LogLevel::Notice.as_str(), "notice");
    assert!(!(LogLevel::Warn < LogLevel::Warn));
    assert!(LogLevel::Fatal > LogLevel::Trace);
}

#[test]
fn test_subscription_matches_all() {
    let sub = EventSubscription::all();
    let event = ObservabilityEvent::log("test:service", LogLevel::Info, "test", LogStream::Stdout);
    assert!(sub.matches(&event));
}

#[test]
fn test_subscription_matches_service() {
    let sub = EventSubscription::for_service("test:service");

    let event1 = ObservabilityEvent::log("test:service", LogLevel::Info, "test", LogStream::Stdout);
    assert!(sub.matches(&event1));

    let event2 = ObservabilityEvent::log("other:service", LogLevel::Info, "test", LogStream::Stdout);
    assert!(!sub.matches(&event2));
}

#[test]
fn test_subscription_matches_wildcard() {
    let sub = EventSubscription { services: vec!["test:*".to_string()], ..Default::default() };

    let event1 = ObservabilityEvent::log("test:service1", LogLevel::Info, "test", LogStream::Stdout);
    assert!(sub.matches(&event1));

    let event2 = ObservabilityEvent::log("test:service2", LogLevel::Info, "test", LogStream::Stdout);
    assert!(sub.matches(&event2));

    let event3 = ObservabilityEvent::log("other:service", LogLevel::Info, "test", LogStream::Stdout);
    assert!(!sub.matches(&event3));
}

#[test]
fn test_subscription_matches_log_level() {
    let sub = EventSubscription { min_log_level: Some(LogLevel::Warn), ..Default::default() };

    let event1 = ObservabilityEvent::log("test:service", LogLevel::Info, "test", LogStream::Stdout);
    assert!(!sub.matches(&event1));

    let event2 = ObservabilityEvent::log("test:service", LogLevel::Warn, "test", LogStream::Stdout);
    assert!(sub.matches(&event2));

    let event3 = ObservabilityEvent::log("test:service", LogLevel::Error, "test", LogStream::Stdout);
    assert!(sub.matches(&event3));
}

#[test]
fn subscriptions_by_kind_and_bare_name() {
    let logs = EventSubscription::logs();
    let started = ObservabilityEvent::service_event("default:auth", ServiceEventType::Started);
    assert!(!logs.matches(&started));
    let by_name = EventSubscription::for_service("auth");
    assert!(by_name.matches(&started));
    assert!(!by_name.matches(&ObservabilityEvent::service_event("default:oauth", ServiceEventType::Started)));
    let star = EventSubscription::for_service("*");
    assert!(star.matches(&started));
    assert_eq!(started.service_fqn(), "default:auth");
    assert!(!started.is_log());
    assert_eq!(ServiceEventType::HealthChanged.as_str(), "health_changed");
}

#[test]
fn test_log_buffer() {
    let mut buffer = LogBuffer::new(5);

    for i in 0..10 {
        buffer.add(log_line("test:service", format!("message {}", i), 0));
    }

    let logs = buffer.get("test:service", None);
    assert_eq!(logs.len(), 5);
    assert_eq!(logs[0].message, "message 5");
    assert_eq!(logs[4].message, "message 9");
}

#[test]
fn test_log_buffer_limit() {
    let mut buffer = LogBuffer::new(100);

    for i in 0..10 {
        buffer.add(log_line("test:service", format!("message {}", i), 0));
    }

    let logs = buffer.get("test:service", Some(3));
    assert_eq!(logs.len(), 3);
    assert_eq!(logs[0].message, "message 7");
    assert_eq!(logs[2].message, "message 9");
}

#[test]
fn log_buffer_across_services() {
    let mut buffer = LogBuffer::new(10);
    buffer.add(log_line("a:web", "w1".to_string(), 30));
    buffer.add(log_line("b:db", "d1".to_string(), 10));
    buffer.add(log_line("a:api", "p1".to_string(), 20));
    let all = buffer.get_all(None, None);
    let messages: Vec<&str> = all.iter().map(|l| l.message.as_str()).collect();
    assert_eq!(messages, vec!["d1", "p1", "w1"]);
    let a = buffer.get_all(Some("a:*"), Some(1));
    assert_eq!(a.len(), 1);
    assert_eq!(a[0].message, "w1");
    assert_eq!(buffer.get_all(Some("b:db"), None).len(), 1);
    assert!(buffer.get("nobody", None).is_empty());
    buffer.clear("a:web");
    assert!(buffer.get("a:web", None).is_empty());
    buffer.clear_all();
    assert!(buffer.get_all(None, None).is_empty());
    let zero = {
        let mut b = LogBuffer::new(0);
        b.add(log_line("x", "gone".to_string(), 0));
        b.get("x", None)
    };
    assert!(zero.is_empty());
}

#[test]
fn health_status_counts() {
    let mut status = HealthStatus::new(2);
    assert_eq!(status.healthy_count(), 0);
    assert!(!status.is_healthy());
    assert!(!status.record(0, true));
    assert_eq!(status.healthy_count(), 1);
    status.record(1, true);
    assert!(status.is_healthy());
    assert!(status.record(1, false));
    assert!(!status.is_healthy());
    assert!(HealthStatus::new(0).is_healthy());
}
