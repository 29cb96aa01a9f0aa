//! Remote control of the daemon through the signaling server: what the daemon reports
//! about itself and its services, and names of services.

use vstd::prelude::*;
use crate::fqn::{fqn_parts, split_fqn};
use crate::source_manager::SourceInfo;

verus! {

/// What the daemon reports about itself.
#[derive(Debug)]
pub struct DaemonStatus {
    pub version: String,
    pub uptime_secs: u64,
    pub sources_count: usize,
    pub services_running: usize,
    pub services_total: usize,
    pub proxy_bind: Vec<String>,
    pub signaling_connected: bool,
}

/// The state of a service, as reported remotely.
#[derive(Clone, Copy, Debug, PartialEq, Eq, Structural)]
pub enum ServiceState {
    Stopped,
    Starting,
    Running,
    Stopping,
    Crashed,
    Restarting,
}

/// A service exposed to other sources.
#[derive(Debug)]
pub struct ExposedInfo {
    pub name: String,
    pub source: String,
    pub service: String,
    pub has_secret: bool,
    pub vars: Vec<String>,
    pub consumers: Vec<String>,
}

/// The kind of a failed remote request.
#[derive(Clone, Copy, Debug, PartialEq, Eq, Structural)]
pub enum ErrorCode {
    NotFound,
    InvalidRequest,
    SourceConflict,
    ServiceConflict,
    Unauthorized,
    InternalError,
    NotSupported,
}

/// How a hive registers with the signaling server.
#[derive(Debug)]
pub struct HiveRegistration {
    pub secret: String,
    pub device_id: Option<String>,
    pub version: String,
    pub device_type: HiveDeviceType,
}

/// What kind of device a hive is, and what it runs.
#[derive(Debug)]
pub struct HiveDeviceType {
    pub name: String,
    pub sources: Vec<SourceInfo>,
    pub cocoon_kinds: Vec<CocoonKindInfo>,
}

/// A kind of cocoon a hive can run.
#[derive(Debug)]
pub struct CocoonKindInfo {
    pub id: String,
    pub image: String,
}

/// The message for a name without a source.
pub open spec fn invalid_fqn_text(fqn: Seq<char>) -> Seq<char> {
    "Invalid FQN format: '"@ + fqn + "'. Expected 'source:service'"@
}

/// The source and service of `source:service` (split at the first `:`).
pub fn parse_fqn(fqn: &str) -> (r: Result<(String, String), String>)
    ensures
        match r {
            Ok((source, service)) => fqn_parts(fqn@) == Some((source@, service@)),
            Err(m) => fqn_parts(fqn@) is None && m@ == invalid_fqn_text(fqn@),
        },
{
    match split_fqn(fqn) {
        Some(p) => Ok(p),
        None => {
            let mut m = "Invalid FQN format: '".to_owned();
            m.append(fqn);
            m.append("'. Expected 'source:service'");
            Err(m)
        },
    }
}

} // verus!
