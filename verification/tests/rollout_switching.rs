use hive::config::{BlueGreenPort, BlueGreenRolloutConfig, PortValue, RecreateRolloutConfig};
use hive::rollout::{BlueGreenColor, OnFailureAction};
use hive::rollout_manager::{RolloutInput, RolloutManager};
use hive::service_proxy::{Route, ServiceProxyState};

fn bg_config() -> BlueGreenRolloutConfig {
    BlueGreenRolloutConfig {
        ports: vec![("http".to_string(), BlueGreenPort { blue: 8080, green: 8081 })],
        healthy_duration: None,
        timeout: None,
        on_failure: Some("abort".to_string()),
    }
}

#[test]
fn blue_green_ports_before_and_after_a_switch() {
    let mut m = RolloutManager::new();
    let input = RolloutInput::BlueGreen(bg_config());
    assert_eq!(m.get_ports("web", &input).unwrap(), vec![("http".to_string(), 8080)]);
    assert!(!m.is_blue_green("web"));

    let state = m.init_blue_green("web", &bg_config(), None, None);
    assert_eq!(state.active, BlueGreenColor::Blue);
    assert!(m.is_blue_green("web"));
    assert_eq!(m.get_ports("web", &input).unwrap(), vec![("http".to_string(), 8080)]);
    assert_eq!(m.get_deployment_ports("web", &input).unwrap(), vec![("http".to_string(), 8081)]);

    let mut proxy = ServiceProxyState::new();
    proxy.add_route(Route {
        service_name: "web".to_string(),
        source: "default".to_string(),
        host: None,
        path: "/".to_string(),
        port: 8080,
        strip_prefix: false,
        timeout_ms: 30000,
    });
    m.switch_blue_green("web", &mut proxy).unwrap();
    assert_eq!(proxy.find_route(None, "/x").unwrap().port, 8081);
    assert_eq!(m.get_blue_green_state("web").unwrap().active, BlueGreenColor::Green);
    assert_eq!(m.get_ports("web", &input).unwrap(), vec![("http".to_string(), 8081)]);
    assert_eq!(m.handle_failure("web"), Ok(OnFailureAction::Abort));

    m.switch_blue_green("web", &mut proxy).unwrap();
    assert_eq!(proxy.find_route(None, "/x").unwrap().port, 8080);
    assert_eq!(m.get_blue_green_state("web").unwrap().active, BlueGreenColor::Blue);
}

#[test]
fn other_rollouts_and_missing_state() {
    let m = RolloutManager::new();
    let recreate = RolloutInput::Recreate(RecreateRolloutConfig { ports: vec![("http".to_string(), PortValue::Simple(3000))] });
    assert_eq!(m.get_ports("api", &recreate).unwrap(), vec![("http".to_string(), 3000)]);
    assert_eq!(m.get_deployment_ports("api", &recreate).unwrap(), vec![("http".to_string(), 3000)]);
    assert_eq!(m.get_ports("api", &RolloutInput::Unknown("canary".to_string())), Err("Unknown rollout type: canary".to_string()));
    assert_eq!(m.handle_failure("api"), Err("No blue-green state for service: api".to_string()));
    let mut m = m;
    let mut proxy = ServiceProxyState::new();
    assert_eq!(m.switch_blue_green("api", &mut proxy), Err("No blue-green state for service: api".to_string()));
    assert!(m.get_blue_green_state("api").is_none());
}
