use hive::config::{
    BlueGreenPort, BlueGreenRolloutConfig, ConfigSection, ExposeConfig, HealthCheck, HealthCheckConfig, ProxyEndpoint,
    RestartPolicy, RolloutConfig, RunnerConfig, ServiceConfig, ServiceProxyConfig, UsesConfig,
};
use hive::deps::{check_circular_dependencies, topological_sort, topological_sort_levels, DependencyError, ServiceDeps};
use hive::validation::{validate_healthcheck, validate_proxy, validate_runner, validate_service, validate_service_name, ValidationResult};

fn svc(name: &str, deps: &[&str]) -> ServiceDeps {
    ServiceDeps { name: name.to_string(), depends_on: deps.iter().map(|d| d.to_string()).collect() }
}

fn section(key: &str, fields: &[&str]) -> ConfigSection {
    ConfigSection { key: key.to_string(), fields: fields.iter().map(|f| f.to_string()).collect() }
}

#[test]
fn test_validate_service_name() {
    let mut result = ValidationResult::new();

    validate_service_name("valid-name", &mut result);
    assert!(result.errors.is_empty());

    validate_service_name("also_valid", &mut result);
    assert!(result.errors.is_empty());

    validate_service_name("Invalid", &mut result);
    assert!(!result.errors.is_empty());
}

#[test]
fn service_name_errors_name_the_path() {
    let mut result = ValidationResult::new();
    validate_service_name("", &mut result);
    assert_eq!(result.errors.len(), 1);
    assert_eq!(result.errors[0].path, "services");
    assert_eq!(result.errors[0].message, "Service name cannot be empty");

    let mut result = ValidationResult::new();
    validate_service_name("9Bad!", &mut result);
    assert_eq!(result.errors.len(), 2);
    assert_eq!(result.errors[0].path, "services.9Bad!");
    assert_eq!(result.errors[0].message, "Service name must start with a lowercase letter");
    assert_eq!(
        result.errors[1].message,
        "Service name must contain only lowercase letters, numbers, hyphens, and underscores"
    );
    assert!(!result.is_valid());
    assert_eq!(result.errors[1].to_text(), "services.9Bad!: Service name must contain only lowercase letters, numbers, hyphens, and underscores");
}

#[test]
fn runner_checks() {
    let mut result = ValidationResult::new();
    let runner = RunnerConfig { runner_type: "script".to_string(), config: vec![section("script", &["shell"])] };
    validate_runner("services.a.runner", &runner, &mut result);
    assert_eq!(result.errors.len(), 1);
    assert_eq!(result.errors[0].path, "services.a.runner.script.run");
    assert_eq!(result.errors[0].message, "'run' is required");

    let mut result = ValidationResult::new();
    let runner = RunnerConfig { runner_type: "docker".to_string(), config: vec![] };
    validate_runner("p", &runner, &mut result);
    assert_eq!(result.errors[0].message, "Missing 'docker' configuration for docker runner");

    let mut result = ValidationResult::new();
    let runner = RunnerConfig { runner_type: "podman".to_string(), config: vec![] };
    validate_runner("p", &runner, &mut result);
    assert!(result.is_valid());
    assert_eq!(result.warnings.len(), 1);
    assert_eq!(result.warnings[0].message, "Missing 'podman' configuration for podman runner (may be auto-installed)");

    let mut result = ValidationResult::new();
    let runner = RunnerConfig { runner_type: String::new(), config: vec![] };
    validate_runner("p", &runner, &mut result);
    assert_eq!(result.errors[0].path, "p.type");
}

#[test]
fn healthcheck_and_proxy_checks() {
    let mut result = ValidationResult::new();
    let checks = HealthCheckConfig::Multiple(vec![
        HealthCheck { check_type: "http".to_string(), config: vec![section("http", &["path"])] },
        HealthCheck { check_type: "tcp".to_string(), config: vec![] },
        HealthCheck { check_type: "custom".to_string(), config: vec![] },
    ]);
    validate_healthcheck("s.healthcheck", &checks, &mut result);
    assert_eq!(result.errors.len(), 2);
    assert_eq!(result.errors[0].path, "s.healthcheck[0].http.port");
    assert_eq!(result.errors[1].path, "s.healthcheck[1]");
    assert_eq!(result.errors[1].message, "Missing 'tcp' configuration");
    assert_eq!(result.warnings[0].path, "s.healthcheck[2]");
    assert_eq!(result.warnings[0].message, "Missing 'custom' configuration for custom health check");

    let mut result = ValidationResult::new();
    let proxy = ServiceProxyConfig::Single(ProxyEndpoint {
        host: Some("https://x".to_string()),
        path: "api".to_string(),
        port: None,
        strip_prefix: false,
        timeout: None,
        buffer_size: None,
        headers: None,
    });
    validate_proxy("s.proxy", &proxy, &mut result);
    assert_eq!(result.errors.len(), 2);
    assert_eq!(result.errors[0].path, "s.proxy.path");
    assert_eq!(result.errors[0].message, "Path must start with '/'");
    assert_eq!(result.errors[1].path, "s.proxy.host");
}

#[test]
fn service_checks() {
    let service = ServiceConfig {
        runner: RunnerConfig { runner_type: "script".to_string(), config: vec![section("script", &["run"])] },
        rollout: None,
        proxy: Some(ServiceProxyConfig::Multiple(vec![])),
        depends_on: vec!["web".to_string(), "db".to_string()],
        healthcheck: None,
        build: None,
        restart: RestartPolicy::Never,
        expose: Some(ExposeConfig { name: String::new(), secret: None, vars: vec![] }),
        uses: vec![UsesConfig { name: String::new(), secret: None, alias: None, vars: vec![] }],
    };
    let all = vec!["web".to_string()];
    let mut result = ValidationResult::new();
    validate_service("web", &service, &all, &mut result);
    let found: Vec<(String, String)> = result.errors.iter().map(|e| (e.path.clone(), e.message.clone())).collect();
    assert_eq!(
        found,
        vec![
            ("services.web".to_string(), "rollout is required when proxy or healthcheck is configured".to_string()),
            ("services.web.depends_on".to_string(), "Service cannot depend on itself".to_string()),
            ("services.web.depends_on".to_string(), "Unknown dependency: db".to_string()),
            ("services.web.expose.name".to_string(), "Expose name is required".to_string()),
            ("services.web.expose.vars".to_string(), "At least one variable is required".to_string()),
            ("services.web.uses[0].name".to_string(), "Uses name is required".to_string()),
        ]
    );
}

#[test]
fn rollout_section_checks() {
    let mut result = ValidationResult::new();
    let r = RolloutConfig { rollout_type: "blue-green".to_string(), config: vec![section("blue-green", &[])] };
    hive::validation::validate_rollout("s.rollout", &r, &mut result);
    assert_eq!(result.errors[0].path, "s.rollout.blue-green.ports");
    let _ = BlueGreenRolloutConfig { ports: vec![("http".to_string(), BlueGreenPort { blue: 1, green: 2 })], healthy_duration: None, timeout: None, on_failure: None };
}

#[test]
fn test_circular_dependency_detection() {
    let services = vec![svc("a", &["b"]), svc("b", &["c"]), svc("c", &["a"])];
    let result = check_circular_dependencies(&services);
    assert!(result.is_err());
    let message = result.unwrap_err().message();
    assert!(message.starts_with("Circular dependency detected involving service: "));
}

#[test]
fn test_topological_sort() {
    let services = vec![svc("c", &["a", "b"]), svc("a", &[]), svc("b", &["a"])];
    let order = topological_sort(&services).unwrap();

    let a_pos = order.iter().position(|s| s == "a").unwrap();
    let b_pos = order.iter().position(|s| s == "b").unwrap();
    let c_pos = order.iter().position(|s| s == "c").unwrap();

    assert!(a_pos < b_pos);
    assert!(a_pos < c_pos);
    assert!(b_pos < c_pos);
}

#[test]
fn sort_levels_groups_by_depth() {
    let services = vec![svc("web", &["db", "cache"]), svc("db", &[]), svc("cache", &[]), svc("worker", &["db"])];
    let levels = topological_sort_levels(&services).unwrap();
    assert_eq!(levels, vec![vec!["cache".to_string(), "db".to_string()], vec!["web".to_string(), "worker".to_string()]]);
}

#[test]
fn unknown_dependency_blocks_startup_order_but_not_cycle_check() {
    let services = vec![svc("a", &["missing"])];
    assert!(check_circular_dependencies(&services).is_ok());
    match topological_sort(&services) {
        Err(e) => assert!(matches!(e, DependencyError::Circular)),
        Ok(_) => panic!("expected an error"),
    }
    assert!(topological_sort_levels(&services).is_err());
    assert_eq!(DependencyError::Circular.message(), "Circular dependency detected");
}

#[test]
fn self_dependency_is_a_cycle() {
    let services = vec![svc("a", &["a"])];
    assert!(check_circular_dependencies(&services).is_err());
}
