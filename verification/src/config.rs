//! The configuration model of a hive: services, how they run, roll out, are proxied and
//! checked, and what they expose to other sources.
//!
//! Maps of the configuration file are held as lists of `(key, value)` pairs; sections whose
//! content belongs to a plugin keep the names of their fields.

use vstd::prelude::*;
use crate::text::texts;

verus! {

/// Name of the built-in stop-then-start rollout.
pub const ROLLOUT_TYPE_RECREATE: &'static str = "recreate";

/// Name of the built-in blue-green rollout.
pub const ROLLOUT_TYPE_BLUE_GREEN: &'static str = "blue-green";

/// A section of plugin-specific configuration: its key, and the names of the fields of its
/// value (empty when the value is not a mapping).
#[derive(Debug)]
pub struct ConfigSection {
    pub key: String,
    pub fields: Vec<String>,
}

/// The fields of the first section called `key`, if there is one.
pub open spec fn section_fields(cfg: Seq<ConfigSection>, key: Seq<char>) -> Option<Seq<Seq<char>>>
    decreases cfg.len(),
{
    if cfg.len() == 0 {
        None
    } else if cfg[0].key@ == key {
        Some(texts(cfg[0].fields@))
    } else {
        section_fields(cfg.drop_first(), key)
    }
}

/// DNS server settings of the proxy.
#[derive(Debug)]
pub struct DnsProxyConfig {
    pub enabled: bool,
    /// Upstream server for queries about other names.
    pub upstream: Option<String>,
}

/// One listen address or several.
#[derive(Debug)]
pub enum ProxyBind {
    Single(String),
    Multiple(Vec<String>),
}

/// The proxy's listen address when none is configured.
pub const PROXY_BIND: &'static str = "127.0.0.1:8080";

impl Default for ProxyBind {
    /// The one address `127.0.0.1:8080`.
    fn default() -> (r: Self)
        ensures
            r matches ProxyBind::Single(s) && s@ == PROXY_BIND@,
    {
        ProxyBind::Single(PROXY_BIND.to_owned())
    }
}

impl ProxyBind {
    /// The listen addresses.
    pub fn addresses(&self) -> (r: Vec<&str>)
        ensures
            r@.map_values(|s: &str| s@) == (match self {
                ProxyBind::Single(s) => seq![s@],
                ProxyBind::Multiple(v) => v@.map_values(|s: String| s@),
            }),
    {
        match self {
            ProxyBind::Single(s) => {
                let r = vec![s.as_str()];
                assert(r@.map_values(|s: &str| s@) =~= seq![s@]);
                r
            },
            ProxyBind::Multiple(v) => {
                let mut r: Vec<&str> = Vec::new();
                let mut i: usize = 0;
                while i < v.len()
                    invariant
                        i <= v@.len(),
                        r@.len() == i,
                        r@.map_values(|s: &str| s@) == v@.take(i as int).map_values(|s: String| s@),
                    decreases v.len() - i,
                {
                    let ghost r0 = r@;
                    r.push(v[i].as_str());
                    assert(v@.take(i + 1) =~= v@.take(i as int).push(v@[i as int]));
                    assert(r@ =~= r0.push(r@[i as int]));
                    assert(r@.map_values(|s: &str| s@) =~= r0.map_values(|s: &str| s@).push(v@[i as int]@));
                    assert(v@.take(i + 1).map_values(|s: String| s@) =~= v@.take(i as int).map_values(|s: String| s@).push(v@[i as int]@));
                    i = i + 1;
                }
                assert(v@.take(v@.len() as int) =~= v@);
                r
            },
        }
    }
}

/// Observability settings.
#[derive(Debug)]
pub struct ObservabilityConfig {
    pub resource_interval: Option<String>,
    pub buffer_size: Option<u64>,
    pub collectors: Option<CollectorsConfig>,
    pub plugins: Vec<String>,
}

/// Which kinds of data are collected.
#[derive(Clone, Copy, Debug, PartialEq, Eq, Structural)]
pub struct CollectorsConfig {
    pub logs: bool,
    pub metrics: bool,
    pub traces: bool,
    pub health: bool,
    pub resources: bool,
    pub proxy: bool,
}

/// How a service is started.
#[derive(Debug)]
pub struct RunnerConfig {
    /// e.g. `script`, `docker`
    pub runner_type: String,
    pub config: Vec<ConfigSection>,
}

/// The built-in script runner.
#[derive(Debug)]
pub struct ScriptRunnerConfig {
    pub run: String,
    pub working_dir: Option<String>,
    /// e.g. `zsh`, `bash`, `sh`
    pub shell: Option<String>,
}

/// The docker runner.
#[derive(Debug)]
pub struct DockerRunnerConfig {
    pub image: String,
    pub container_name: Option<String>,
    pub ports: Vec<String>,
    pub volumes: Vec<String>,
    pub environment: Vec<(String, String)>,
    pub socket: Option<String>,
    /// Skip pulling the image before the container is created.
    pub deny_pull: bool,
    pub security: DockerSecurityConfig,
    pub bind_ip: String,
}

/// Container hardening.
#[derive(Debug)]
pub struct DockerSecurityConfig {
    pub cap_drop_all: bool,
    pub cap_add: Vec<String>,
    pub no_new_privileges: bool,
    pub read_only: bool,
    pub user: Option<String>,
    pub security_opt: Vec<String>,
}

impl Default for DockerSecurityConfig {
    /// All capabilities dropped, no new privileges, writable file system.
    fn default() -> (r: Self)
        ensures
            r.cap_drop_all,
            r.cap_add@.len() == 0,
            r.no_new_privileges,
            !r.read_only,
            r.user is None,
            r.security_opt@.len() == 0,
    {
        DockerSecurityConfig {
            cap_drop_all: true,
            cap_add: Vec::new(),
            no_new_privileges: true,
            read_only: false,
            user: None,
            security_opt: Vec::new(),
        }
    }
}

/// How a new version of a service replaces the running one.
#[derive(Debug)]
pub struct RolloutConfig {
    pub rollout_type: String,
    pub config: Vec<ConfigSection>,
}

/// The built-in recreate rollout.
#[derive(Debug)]
pub struct RecreateRolloutConfig {
    pub ports: Vec<(String, PortValue)>,
}

/// The blue-green rollout.
#[derive(Debug)]
pub struct BlueGreenRolloutConfig {
    pub ports: Vec<(String, BlueGreenPort)>,
    /// How long the new instance must stay healthy.
    pub healthy_duration: Option<String>,
    /// How long to wait for the new instance.
    pub timeout: Option<String>,
    /// What to do when the new instance fails.
    pub on_failure: Option<String>,
}

/// A port number, or a blue-green pair.
#[derive(Clone, Copy, Debug, PartialEq, Eq, Structural)]
pub enum PortValue {
    Simple(u16),
    BlueGreen(BlueGreenPort),
}

impl PortValue {
    /// The port; the blue one of a pair.
    pub fn get_port(&self) -> (r: u16)
        ensures
            r == (match *self {
                PortValue::Simple(p) => p,
                PortValue::BlueGreen(bg) => bg.blue,
            }),
    {
        match self {
            PortValue::Simple(p) => *p,
            PortValue::BlueGreen(bg) => bg.blue,
        }
    }
}

/// The two ports of a blue-green pair.
#[derive(Clone, Copy, Debug, PartialEq, Eq, Structural)]
pub struct BlueGreenPort {
    pub blue: u16,
    pub green: u16,
}

/// One proxied endpoint or several.
#[derive(Debug)]
pub enum ServiceProxyConfig {
    Single(ProxyEndpoint),
    Multiple(Vec<ProxyEndpoint>),
}

/// The endpoints of a proxy configuration.
pub open spec fn proxy_endpoints(p: ServiceProxyConfig) -> Seq<ProxyEndpoint> {
    match p {
        ServiceProxyConfig::Single(e) => seq![e],
        ServiceProxyConfig::Multiple(v) => v@,
    }
}

/// A route from the proxy to a service.
#[derive(Debug)]
pub struct ProxyEndpoint {
    pub host: Option<String>,
    /// Path prefix.
    pub path: String,
    pub port: Option<String>,
    pub strip_prefix: bool,
    pub timeout: Option<String>,
    pub buffer_size: Option<String>,
    pub headers: Option<ProxyHeaders>,
}

/// Header changes on proxied requests.
#[derive(Debug)]
pub struct ProxyHeaders {
    pub add: Vec<(String, String)>,
    pub remove: Vec<String>,
    /// Replaces existing headers.
    pub set: Vec<(String, String)>,
}

/// One health check or several.
#[derive(Debug)]
pub enum HealthCheckConfig {
    Single(HealthCheck),
    Multiple(Vec<HealthCheck>),
}

/// The checks of a health-check configuration.
pub open spec fn health_checks(h: HealthCheckConfig) -> Seq<HealthCheck> {
    match h {
        HealthCheckConfig::Single(c) => seq![c],
        HealthCheckConfig::Multiple(v) => v@,
    }
}

/// A health check.
#[derive(Debug)]
pub struct HealthCheck {
    /// e.g. `http`, `tcp`, `cmd`
    pub check_type: String,
    pub config: Vec<ConfigSection>,
}

/// An HTTP health check.
#[derive(Debug)]
pub struct HttpHealthCheckConfig {
    pub port: String,
    pub path: String,
    pub method: String,
    pub status: Option<u16>,
    pub interval: Option<String>,
    pub timeout: Option<String>,
    pub retries: Option<u32>,
    pub start_period: Option<String>,
}

/// A TCP health check.
#[derive(Debug)]
pub struct TcpHealthCheckConfig {
    pub port: String,
    pub interval: Option<String>,
    pub timeout: Option<String>,
    pub retries: Option<u32>,
    pub start_period: Option<String>,
}

/// A command health check.
#[derive(Debug)]
pub struct CmdHealthCheckConfig {
    pub command: String,
    pub working_dir: Option<String>,
    pub interval: Option<String>,
    pub timeout: Option<String>,
    pub retries: Option<u32>,
    pub start_period: Option<String>,
}

/// A build step run before a service starts.
#[derive(Debug)]
pub struct BuildConfig {
    pub command: String,
    pub working_dir: Option<String>,
    pub build_when: BuildTrigger,
    /// What `Missing` looks for; without it the build always runs.
    pub output: Option<String>,
}

/// When the build step runs.
#[derive(Clone, Copy, Debug, PartialEq, Eq, Structural)]
pub enum BuildTrigger {
    /// Only when the output does not exist.
    Missing,
    /// Before every start.
    Always,
    Never,
}

/// When a stopped service is started again.
#[derive(Clone, Copy, Debug, PartialEq, Eq, Structural)]
pub enum RestartPolicy {
    Never,
    /// Only after a non-zero exit code.
    OnFailure,
    Always,
    /// As `Always`, except after a manual stop.
    UnlessStopped,
}

/// What a service offers to services of other sources.
#[derive(Debug)]
pub struct ExposeConfig {
    /// Unique over all sources.
    pub name: String,
    /// Needed by consumers.
    pub secret: Option<String>,
    pub vars: Vec<(String, String)>,
}

/// A dependency on a service exposed by another source.
#[derive(Debug)]
pub struct UsesConfig {
    pub name: String,
    pub secret: Option<String>,
    pub alias: Option<String>,
    pub vars: Vec<(String, String)>,
}

/// The configuration of one service.
#[derive(Debug)]
pub struct ServiceConfig {
    pub runner: RunnerConfig,
    /// Required when a proxy or a health check is set.
    pub rollout: Option<RolloutConfig>,
    pub proxy: Option<ServiceProxyConfig>,
    pub depends_on: Vec<String>,
    pub healthcheck: Option<HealthCheckConfig>,
    pub build: Option<BuildConfig>,
    pub restart: RestartPolicy,
    pub expose: Option<ExposeConfig>,
    pub uses: Vec<UsesConfig>,
}

/// The state of a managed service.
#[derive(Clone, Copy, Debug, PartialEq, Eq, Structural)]
pub enum ServiceState {
    Stopped,
    Starting,
    Running,
    Unhealthy,
    Stopping,
    Crashed,
    Exited,
    /// Its port is held by a process that is not managed.
    PortConflict,
}

impl ServiceState {
    /// The state as shown to users.
    pub fn as_str(&self) -> (r: &'static str)
        ensures
            r@ == (match *self {
                ServiceState::Stopped => "stopped"@,
                ServiceState::Starting => "starting"@,
                ServiceState::Running => "running"@,
                ServiceState::Unhealthy => "unhealthy"@,
                ServiceState::Stopping => "stopping"@,
                ServiceState::Crashed => "crashed"@,
                ServiceState::Exited => "exited"@,
                ServiceState::PortConflict => "port conflict"@,
            }),
    {
        match self {
            ServiceState::Stopped => "stopped",
            ServiceState::Starting => "starting",
            ServiceState::Running => "running",
            ServiceState::Unhealthy => "unhealthy",
            ServiceState::Stopping => "stopping",
            ServiceState::Crashed => "crashed",
            ServiceState::Exited => "exited",
            ServiceState::PortConflict => "port conflict",
        }
    }
}

/// The kind of store a configuration source lives in.
#[derive(Clone, Copy, Debug, PartialEq, Eq, Structural)]
pub enum SourceType {
    Yaml,
    Sqlite,
}

/// A place services are configured.
#[derive(Debug)]
pub struct ConfigSource {
    /// e.g. `default`, a project name
    pub name: String,
    pub path: String,
    pub source_type: SourceType,
    pub enabled: bool,
}

} // verus!
