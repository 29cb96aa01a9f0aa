use hive::config::{BlueGreenPort, BlueGreenRolloutConfig, PortValue, ProxyBind};
use hive::duration::Duration;
use hive::plugin_system::{is_builtin_plugin, is_core_plugin, resolve_plugin_id, EnsureStep, InstallOutcome, PluginRegistry, PluginStatus, PluginType};
use hive::rollout::{BlueGreenColor, BlueGreenDeployment, BlueGreenState, OnFailureAction};

#[test]
fn test_plugin_type_prefix() {
    assert_eq!(PluginType::Runner.prefix(), "hive.runner.");
    assert_eq!(PluginType::Env.prefix(), "hive.env.");
    assert_eq!(PluginType::ProxySsl.prefix(), "hive.proxy.ssl.");
}

#[test]
fn test_plugin_type_from_id() {
    let (t, n) = PluginType::from_plugin_id("hive.runner.docker").unwrap();
    assert_eq!(t, PluginType::Runner);
    assert_eq!(n, "docker");

    let (t, n) = PluginType::from_plugin_id("hive.proxy.ssl.letsencrypt").unwrap();
    assert_eq!(t, PluginType::ProxySsl);
    assert_eq!(n, "letsencrypt");
}

#[test]
fn plugin_ids_without_known_prefix() {
    assert!(PluginType::from_plugin_id("other.runner.x").is_none());
    let (t, n) = PluginType::from_plugin_id("hive.proxy.cors").unwrap();
    assert_eq!((t, n), (PluginType::Proxy, "cors"));
    assert_eq!(PluginType::from_type_string(PluginType::Obs, "stdout"), "hive.obs.stdout");
}

#[test]
fn test_resolve_plugin_id() {
    assert_eq!(resolve_plugin_id(PluginType::Runner, "docker"), "hive.runner.docker");
    assert_eq!(resolve_plugin_id(PluginType::Runner, "hive.runner.docker"), "hive.runner.docker");
}

#[test]
fn test_is_core_plugin() {
    assert!(is_core_plugin(PluginType::Health, "cmd"));
    assert!(is_core_plugin(PluginType::Parse, "env"));

    assert!(!is_core_plugin(PluginType::Runner, "script"));
    assert!(!is_core_plugin(PluginType::Runner, "docker"));
    assert!(!is_core_plugin(PluginType::Health, "http"));
    assert!(!is_core_plugin(PluginType::Health, "tcp"));
    assert!(!is_core_plugin(PluginType::Obs, "stdout"));
    assert!(is_builtin_plugin(PluginType::Rollout, "recreate"));
}

#[test]
fn test_registry_core_plugins() {
    let registry = PluginRegistry::new(true);

    assert!(!registry.is_available("hive.runner.script"));
    assert!(!registry.is_available("hive.runner.docker"));
    assert!(!registry.is_available("hive.health.http"));
}

#[test]
fn registry_install_flow() {
    let mut registry = PluginRegistry::new(false);
    assert!(registry.is_available("hive.parse.env"));
    assert!(registry.is_bundled("hive.health.cmd"));
    assert_eq!(registry.list_by_type(PluginType::Parse).len(), 2);
    match registry.ensure_step("hive.runner.docker") {
        EnsureStep::Refused(e) => assert_eq!(
            e.message(),
            "Plugin 'hive.runner.docker' is not installed and auto-install is disabled. Install it manually with: adi plugin install hive.runner.docker"
        ),
        _ => panic!("expected a refusal"),
    }
    let (t, name) = PluginRegistry::install_target("hive.runner.docker").unwrap();
    assert!(registry.record_install("hive.runner.docker", t, name.as_str(), InstallOutcome::Succeeded).is_ok());
    assert!(registry.is_available("hive.runner.docker"));
    let err = registry
        .record_install("hive.obs.file", PluginType::Obs, "file", InstallOutcome::Failed { stderr: "boom".to_string() })
        .unwrap_err();
    assert_eq!(err.message(), "Plugin installation failed: boom");
    assert!(matches!(registry.get("hive.obs.file").unwrap().status, PluginStatus::Failed(_)));
    assert!(!registry.is_available("hive.obs.file"));
    assert!(PluginRegistry::install_target("docker").is_err());
    registry.register_installed("hive.env.vault", None);
    assert!(registry.is_available("hive.env.vault"));
    registry.register_installed("nonsense", None);
    assert!(registry.get("nonsense").is_none());
}

#[test]
fn test_blue_green_color() {
    assert_eq!(BlueGreenColor::Blue.opposite(), BlueGreenColor::Green);
    assert_eq!(BlueGreenColor::Green.opposite(), BlueGreenColor::Blue);
}

fn http_ports() -> Vec<(String, BlueGreenPort)> {
    vec![("http".to_string(), BlueGreenPort { blue: 8080, green: 8081 })]
}

#[test]
fn test_blue_green_state() {
    let config = BlueGreenRolloutConfig {
        ports: http_ports(),
        healthy_duration: Some("5s".to_string()),
        timeout: Some("30s".to_string()),
        on_failure: Some("keep-old".to_string()),
    };

    let mut state = BlueGreenState::from_config(&config, Some(Duration::from_secs(5)), Some(Duration::from_secs(30)));

    assert_eq!(state.active, BlueGreenColor::Blue);
    assert_eq!(state.active_port("http"), Some(8080));
    assert_eq!(state.inactive_port("http"), Some(8081));

    state.switch();
    assert_eq!(state.active, BlueGreenColor::Green);
    assert_eq!(state.active_port("http"), Some(8081));
    assert_eq!(state.inactive_port("http"), Some(8080));
}

#[test]
fn test_on_failure_action() {
    let config = BlueGreenRolloutConfig { ports: http_ports(), healthy_duration: None, timeout: None, on_failure: Some("abort".to_string()) };
    let state = BlueGreenState::from_config(&config, None, None);
    assert_eq!(state.on_failure, OnFailureAction::Abort);

    let config = BlueGreenRolloutConfig { ports: http_ports(), healthy_duration: None, timeout: None, on_failure: Some("keep-old".to_string()) };
    let state = BlueGreenState::from_config(&config, None, None);
    assert_eq!(state.on_failure, OnFailureAction::KeepOld);
}

#[test]
fn blue_green_defaults_and_deployment() {
    let config = BlueGreenRolloutConfig { ports: http_ports(), healthy_duration: None, timeout: None, on_failure: None };
    let state = BlueGreenState::from_config(&config, None, None);
    assert_eq!(state.healthy_duration, Duration::from_secs(10));
    assert_eq!(state.timeout, Duration::from_secs(60));
    assert_eq!(state.on_failure, OnFailureAction::KeepOld);
    assert_eq!(state.active_ports(), vec![("http".to_string(), 8080)]);
    assert_eq!(state.inactive_port("grpc"), None);
    let deployment = BlueGreenDeployment::new("web", state);
    assert_eq!(deployment.new_instance_ports(), vec![("http".to_string(), 8081)]);
    assert!(!deployment.timed_out_after(Duration::from_secs(60)));
    assert!(deployment.timed_out_after(Duration { secs: 60, nanos: 1 }));
    assert_eq!(deployment.remaining_after(Duration::from_millis(59_500)), Duration::from_millis(500));
    assert_eq!(deployment.remaining_after(Duration::from_secs(90)), Duration::from_secs(0));
    assert!(!deployment.is_timed_out());
    assert!(deployment.remaining_timeout().secs <= 60);
    assert_eq!(deployment.healthy_duration(), Duration::from_secs(10));
}

#[test]
fn ports_and_binds() {
    assert_eq!(PortValue::Simple(80).get_port(), 80);
    assert_eq!(PortValue::BlueGreen(BlueGreenPort { blue: 1, green: 2 }).get_port(), 1);
    assert_eq!(ProxyBind::Single("a:1".to_string()).addresses(), vec!["a:1"]);
    assert_eq!(ProxyBind::Multiple(vec!["a".to_string(), "b".to_string()]).addresses(), vec!["a", "b"]);
}

#[test]
fn plugin_ids_read_back_as_built() {
    let types = [
        PluginType::Parse,
        PluginType::Runner,
        PluginType::Env,
        PluginType::Health,
        PluginType::Rollout,
        PluginType::ProxySsl,
        PluginType::ProxyAuth,
        PluginType::Proxy,
        PluginType::Obs,
    ];
    for t in types {
        let id = PluginType::from_type_string(t, "docker");
        assert_eq!(PluginType::from_plugin_id(&id), Some((t, "docker")));
    }
    let odd = PluginType::from_type_string(PluginType::Proxy, "ssl.acme");
    assert_eq!(PluginType::from_plugin_id(&odd), Some((PluginType::ProxySsl, "acme")));
}

#[test]
fn the_default_proxy_bind_is_local_port_8080() {
    assert_eq!(ProxyBind::default().addresses(), vec!["127.0.0.1:8080"]);
}

#[test]
fn a_switch_swaps_the_port_lists() {
    let config = BlueGreenRolloutConfig { ports: http_ports(), healthy_duration: None, timeout: None, on_failure: None };
    let mut state = BlueGreenState::from_config(&config, None, None);
    let active_before = state.active_ports();
    let inactive_before = state.inactive_ports();
    state.switch();
    assert_eq!(state.active_ports(), inactive_before);
    assert_eq!(state.inactive_ports(), active_before);
    state.switch();
    assert_eq!(state.active_ports(), active_before);
}
