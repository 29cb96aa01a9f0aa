use hive::config::{BlueGreenPort, BlueGreenRolloutConfig, PortValue, RecreateRolloutConfig};
use hive::config_validation::{get_rollout_ports, RolloutPortsSource};
use hive::defaults::Json;
use hive::config::{ConfigSection, ExposeConfig, ProxyEndpoint, RestartPolicy, RunnerConfig, ServiceConfig, ServiceProxyConfig};
use hive::config_validation::validate_config;

fn service(deps: &[&str], route: Option<(&str, Option<&str>)>, expose: Option<&str>) -> ServiceConfig {
    ServiceConfig {
        runner: RunnerConfig {
            runner_type: "script".to_string(),
            config: vec![ConfigSection { key: "script".to_string(), fields: vec!["run".to_string()] }],
        },
        rollout: None,
        proxy: route.map(|(path, host)| {
            ServiceProxyConfig::Single(ProxyEndpoint {
                host: host.map(|h| h.to_string()),
                path: path.to_string(),
                port: None,
                strip_prefix: false,
                timeout: None,
                buffer_size: None,
                headers: None,
            })
        }),
        depends_on: deps.iter().map(|d| d.to_string()).collect(),
        healthcheck: None,
        build: None,
        restart: RestartPolicy::Never,
        expose: expose.map(|n| ExposeConfig { name: n.to_string(), secret: None, vars: vec![("URL".to_string(), "x".to_string())] }),
        uses: vec![],
    }
}

fn messages(r: &hive::validation::ValidationResult) -> Vec<(String, String)> {
    r.errors.iter().map(|e| (e.path.clone(), e.message.clone())).collect()
}

#[test]
fn a_clean_configuration_has_no_errors() {
    let services = vec![("api".to_string(), service(&["db"], None, Some("api"))), ("db".to_string(), service(&[], None, None))];
    let ports = vec![Some(vec![("http".to_string(), 8080)]), Some(vec![("pg".to_string(), 5432)])];
    let r = validate_config("1", &services, &ports);
    assert!(r.is_valid(), "{:?}", messages(&r));
}

#[test]
fn whole_configuration_findings_in_order() {
    let services = vec![
        ("web".to_string(), service(&["api"], Some(("/", None)), Some("shared"))),
        ("api".to_string(), service(&["web"], Some(("/", None)), Some("shared"))),
    ];
    let ports = vec![Some(vec![("http".to_string(), 8080)]), Some(vec![("http".to_string(), 8080), ("admin".to_string(), 9000)])];
    let r = validate_config("2", &services, &ports);
    let found = messages(&r);
    assert_eq!(found[0], ("version".to_string(), "Unsupported version: 2. Expected \"1\"".to_string()));
    let n = found.len();
    assert_eq!(found[n - 4].0, "services");
    assert!(found[n - 4].1.starts_with("Circular dependency detected involving service: "));
    assert_eq!(found[n - 3], ("services".to_string(), "Port 8080 is used by multiple services: web:http, api:http".to_string()));
    assert_eq!(found[n - 2], ("services.api.proxy".to_string(), "Route None// conflicts with service web".to_string()));
    assert_eq!(found[n - 1], ("services.api.expose.name".to_string(), "Expose name 'shared' conflicts with service web".to_string()));
}

#[test]
fn routes_differ_by_host() {
    let services = vec![
        ("a".to_string(), service(&[], Some(("/x", Some("a.test"))), None)),
        ("b".to_string(), service(&[], Some(("/x", Some("b.test"))), None)),
        ("c".to_string(), service(&[], Some(("/x", Some("a.test"))), None)),
    ];
    let r = validate_config("1", &services, &vec![None, None, None]);
    let conflicts: Vec<_> = messages(&r).into_iter().filter(|(_, m)| m.starts_with("Route ")).collect();
    assert_eq!(conflicts, vec![("services.c.proxy".to_string(), "Route Some(\"a.test\")//x conflicts with service a".to_string())]);
}

#[test]
fn rollout_ports_by_type() {

    let recreate = RolloutPortsSource::Recreate(RecreateRolloutConfig {
        ports: vec![
            ("http".to_string(), PortValue::Simple(8080)),
            ("grpc".to_string(), PortValue::BlueGreen(BlueGreenPort { blue: 9000, green: 9001 })),
        ],
    });
    assert_eq!(get_rollout_ports(&recreate), vec![("http".to_string(), 8080), ("grpc".to_string(), 9000)]);

    let bg = RolloutPortsSource::BlueGreen(BlueGreenRolloutConfig {
        ports: vec![("http".to_string(), BlueGreenPort { blue: 3000, green: 3001 })],
        healthy_duration: None,
        timeout: None,
        on_failure: None,
    });
    assert_eq!(get_rollout_ports(&bg), vec![("http".to_string(), 3000)]);

    let other = RolloutPortsSource::Other(Some(Json::Object(vec![
        ("a".to_string(), Json::Number("7000".to_string())),
        ("b".to_string(), Json::Str("7001".to_string())),
        ("c".to_string(), Json::Number("1.5".to_string())),
        ("d".to_string(), Json::Number("65537".to_string())),
    ])));
    assert_eq!(get_rollout_ports(&other), vec![("a".to_string(), 7000), ("d".to_string(), 1)]);
    assert!(get_rollout_ports(&RolloutPortsSource::Other(None)).is_empty());
}
