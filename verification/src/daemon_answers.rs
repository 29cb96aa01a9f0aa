//! How the daemon answers the requests that act on sources and services: each request
//! is carried out by the source manager, and its outcome becomes an answer with a fixed
//! error code and message. Also the daemon's start-up decisions and the sources a
//! graceful shutdown stops first.

use vstd::prelude::*;
use crate::settings::string_views;
use crate::source_manager::{SourceInfo, SourceStatus};
use crate::config::ServiceState;
use crate::daemon::{count_services, requested_level, select_logs, selected_logs, service_totals};
use crate::exposure::ExposedService;
use crate::observability::{LogBuffer, LogLine};
use crate::log_level::LogLevel;
use crate::observability::EventSubscription;
use crate::text::{decimal, u64_decimal};

verus! {

/// A request that acts on one source, by name.
#[derive(Clone, Copy, Debug, PartialEq, Eq, Structural)]
pub enum SourceCommand {
    Remove,
    Reload,
    Enable,
    Disable,
    Start,
    Stop,
}

/// A request that acts on one service, by its full name.
#[derive(Clone, Copy, Debug, PartialEq, Eq, Structural)]
pub enum ServiceCommand {
    Start,
    Stop,
    Restart,
    Delete,
}

/// A request whose answer only reports how it went.
#[derive(Debug)]
pub enum Command {
    Source { command: SourceCommand, name: String },
    Service { command: ServiceCommand, fqn: String },
    /// Create service `name` in source `source_id`; `config_error` says why its
    /// configuration could not be read, if it could not.
    CreateService { source_id: String, name: String, config_error: Option<String> },
    UpdateService { fqn: String },
    Shutdown { graceful: bool },
    /// A streaming request, which a connection handles itself.
    Streaming,
}

/// The daemon's answer to such a request.
#[derive(Debug, PartialEq, Eq)]
pub enum Answer {
    Success { message: Option<String> },
    Error { code: String, message: String },
}

/// A request, as plain values.
pub enum CommandView {
    Source(SourceCommand, Seq<char>),
    Service(ServiceCommand, Seq<char>),
    CreateService(Seq<char>, Seq<char>, Option<Seq<char>>),
    UpdateService(Seq<char>),
    Shutdown(bool),
    Streaming,
}

/// An answer, as plain values.
pub enum AnswerView {
    Success(Option<Seq<char>>),
    Error(Seq<char>, Seq<char>),
}

pub open spec fn command_view(c: Command) -> CommandView {
    match c {
        Command::Source { command, name } => CommandView::Source(command, name@),
        Command::Service { command, fqn } => CommandView::Service(command, fqn@),
        Command::CreateService { source_id, name, config_error } => CommandView::CreateService(
            source_id@,
            name@,
            match config_error {
                Some(e) => Some(e@),
                None => None,
            },
        ),
        Command::UpdateService { fqn } => CommandView::UpdateService(fqn@),
        Command::Shutdown { graceful } => CommandView::Shutdown(graceful),
        Command::Streaming => CommandView::Streaming,
    }
}

pub open spec fn answer_view(a: Answer) -> AnswerView {
    match a {
        Answer::Success { message } => AnswerView::Success(
            match message {
                Some(m) => Some(m@),
                None => None,
            },
        ),
        Answer::Error { code, message } => AnswerView::Error(code@, message@),
    }
}

/// The error code and the start of the success message of a source request.
pub open spec fn source_words(c: SourceCommand) -> (Seq<char>, Seq<char>) {
    match c {
        SourceCommand::Remove => ("REMOVE_SOURCE_FAILED"@, "Removed source: "@),
        SourceCommand::Reload => ("RELOAD_SOURCE_FAILED"@, "Reloaded source: "@),
        SourceCommand::Enable => ("ENABLE_SOURCE_FAILED"@, "Enabled source: "@),
        SourceCommand::Disable => ("DISABLE_SOURCE_FAILED"@, "Disabled source: "@),
        SourceCommand::Start => ("START_SOURCE_FAILED"@, "Started source: "@),
        SourceCommand::Stop => ("STOP_SOURCE_FAILED"@, "Stopped source: "@),
    }
}

/// The error code and the start of the success message of a service request.
pub open spec fn service_words(c: ServiceCommand) -> (Seq<char>, Seq<char>) {
    match c {
        ServiceCommand::Start => ("START_SERVICE_FAILED"@, "Started service: "@),
        ServiceCommand::Stop => ("STOP_SERVICE_FAILED"@, "Stopped service: "@),
        ServiceCommand::Restart => ("RESTART_SERVICE_FAILED"@, "Restarted service: "@),
        ServiceCommand::Delete => ("DELETE_SERVICE_FAILED"@, "Deleted service: "@),
    }
}

/// A success with `ok_msg` when the request went through, else the error `code` with the
/// failure's message.
pub open spec fn reported(outcome: Result<(), Seq<char>>, code: Seq<char>, ok_msg: Seq<char>) -> AnswerView {
    match outcome {
        Ok(()) => AnswerView::Success(Some(ok_msg)),
        Err(e) => AnswerView::Error(code, e),
    }
}

/// The answer to a request, given how carrying it out went (`outcome`; a shutdown, an
/// update and a streaming request carry nothing out, and a service whose configuration
/// could not be read is not created).
pub open spec fn command_answer(c: CommandView, outcome: Result<(), Seq<char>>) -> AnswerView {
    match c {
        CommandView::Source(cmd, name) => reported(outcome, source_words(cmd).0, source_words(cmd).1 + name),
        CommandView::Service(cmd, fqn) => reported(outcome, service_words(cmd).0, service_words(cmd).1 + fqn),
        CommandView::CreateService(source_id, name, config_error) => match config_error {
            Some(e) => AnswerView::Error("INVALID_CONFIG"@, "Invalid service config: "@ + e),
            None => reported(outcome, "CREATE_SERVICE_FAILED"@, "Created service "@ + source_id + ":"@ + name),
        },
        CommandView::UpdateService(fqn) => AnswerView::Error(
            "NOT_IMPLEMENTED"@,
            "UpdateService not yet implemented for '"@ + fqn + "'"@,
        ),
        CommandView::Shutdown(graceful) => AnswerView::Success(
            Some(if graceful { "Graceful shutdown completed"@ } else { "Shutdown initiated"@ }),
        ),
        CommandView::Streaming => AnswerView::Error(
            "INTERNAL_ERROR"@,
            "Streaming requests should be handled separately"@,
        ),
    }
}

fn concat(a: &str, b: &str) -> (r: String)
    ensures
        r@ == a@ + b@,
{
    let mut r = a.to_owned();
    r.append(b);
    r
}

/// A success with `ok_msg` when `result` is `Ok`, else the error `code` with its message.
pub fn ok_or_error(result: Result<(), String>, code: &str, ok_msg: String) -> (r: Answer)
    ensures
        answer_view(r) == reported(
            match result {
                Ok(()) => Ok(()),
                Err(e) => Err(e@),
            },
            code@,
            ok_msg@,
        ),
{
    match result {
        Ok(()) => Answer::Success { message: Some(ok_msg) },
        Err(e) => Answer::Error { code: code.to_owned(), message: e },
    }
}

/// The answer to `command` once it has been carried out with `outcome` (see
/// `command_answer`).
pub fn answer_command(command: &Command, outcome: Result<(), String>) -> (r: Answer)
    ensures
        answer_view(r) == command_answer(
            command_view(*command),
            match outcome {
                Ok(()) => Ok(()),
                Err(e) => Err(e@),
            },
        ),
{
    match command {
        Command::Source { command, name } => {
            let (code, verb) = match command {
                SourceCommand::Remove => ("REMOVE_SOURCE_FAILED", "Removed source: "),
                SourceCommand::Reload => ("RELOAD_SOURCE_FAILED", "Reloaded source: "),
                SourceCommand::Enable => ("ENABLE_SOURCE_FAILED", "Enabled source: "),
                SourceCommand::Disable => ("DISABLE_SOURCE_FAILED", "Disabled source: "),
                SourceCommand::Start => ("START_SOURCE_FAILED", "Started source: "),
                SourceCommand::Stop => ("STOP_SOURCE_FAILED", "Stopped source: "),
            };
            ok_or_error(outcome, code, concat(verb, name.as_str()))
        },
        Command::Service { command, fqn } => {
            let (code, verb) = match command {
                ServiceCommand::Start => ("START_SERVICE_FAILED", "Started service: "),
                ServiceCommand::Stop => ("STOP_SERVICE_FAILED", "Stopped service: "),
                ServiceCommand::Restart => ("RESTART_SERVICE_FAILED", "Restarted service: "),
                ServiceCommand::Delete => ("DELETE_SERVICE_FAILED", "Deleted service: "),
            };
            ok_or_error(outcome, code, concat(verb, fqn.as_str()))
        },
        Command::CreateService { source_id, name, config_error } => match config_error {
            Some(e) => Answer::Error {
                code: "INVALID_CONFIG".to_owned(),
                message: concat("Invalid service config: ", e.as_str()),
            },
            None => {
                let mut msg = concat("Created service ", source_id.as_str());
                msg.append(":");
                msg.append(name.as_str());
                ok_or_error(outcome, "CREATE_SERVICE_FAILED", msg)
            },
        },
        Command::UpdateService { fqn } => {
            let mut msg = concat("UpdateService not yet implemented for '", fqn.as_str());
            msg.append("'");
            Answer::Error { code: "NOT_IMPLEMENTED".to_owned(), message: msg }
        },
        Command::Shutdown { graceful } => Answer::Success {
            message: Some(
                if *graceful {
                    "Graceful shutdown completed".to_owned()
                } else {
                    "Shutdown initiated".to_owned()
                },
            ),
        },
        Command::Streaming => Answer::Error {
            code: "INTERNAL_ERROR".to_owned(),
            message: "Streaming requests should be handled separately".to_owned(),
        },
    }
}

/// The answer when a service is not found: `NOT_FOUND`, `Service '<fqn>' not found`.
pub fn service_not_found(fqn: &str) -> (r: Answer)
    ensures
        answer_view(r) == AnswerView::Error("NOT_FOUND"@, "Service '"@ + fqn@ + "' not found"@),
{
    let mut msg = concat("Service '", fqn);
    msg.append("' not found");
    Answer::Error { code: "NOT_FOUND".to_owned(), message: msg }
}

/// The names of the running sources, in order: a graceful shutdown stops them first.
pub open spec fn running_names(sources: Seq<SourceInfo>) -> Seq<Seq<char>>
    decreases sources.len(),
{
    if sources.len() == 0 {
        Seq::empty()
    } else {
        let rest = running_names(sources.drop_last());
        if sources.last().status is Running {
            rest.push(sources.last().name@)
        } else {
            rest
        }
    }
}

/// The sources a graceful shutdown stops first: the running ones, in order.
pub fn sources_to_stop(sources: &Vec<SourceInfo>) -> (r: Vec<String>)
    ensures
        string_views(r@) == running_names(sources@),
{
    let mut r: Vec<String> = Vec::new();
    let mut i: usize = 0;
    while i < sources.len()
        invariant
            i <= sources@.len(),
            string_views(r@) == running_names(sources@.take(i as int)),
        decreases sources@.len() - i,
    {
        let ghost t = sources@.take(i + 1);
        assert(t.drop_last() =~= sources@.take(i as int));
        assert(t.last() == sources@[i as int]);
        if matches!(sources[i].status, SourceStatus::Running) {
            let ghost before = string_views(r@);
            r.push(sources[i].name.clone());
            assert(string_views(r@) =~= before.push(sources@[i as int].name@));
        }
        i = i + 1;
    }
    assert(sources@.take(sources@.len() as int) =~= sources@);
    r
}

/// Why the daemon does not start when another one runs with process id `pid`.
pub fn already_running_message(pid: u32) -> (r: String)
    ensures
        r@ == "Daemon is already running (pid: "@ + decimal(pid as nat) + "). Use 'adi hive daemon stop' to stop it."@,
{
    let digits = u64_decimal(pid as u64);
    let mut r = "Daemon is already running (pid: ".to_owned();
    let mut i: usize = 0;
    let ghost start = r@;
    while i < digits.len()
        invariant
            i <= digits@.len(),
            r@ == start + digits@.take(i as int),
        decreases digits@.len() - i,
    {
        r.push(digits[i]);
        assert(digits@.take(i + 1) =~= digits@.take(i as int).push(digits@[i as int]));
        i = i + 1;
    }
    assert(digits@.take(digits@.len() as int) =~= digits@);
    r.append("). Use 'adi hive daemon stop' to stop it.");
    r
}

/// Whether the daemon starts its proxy server: when it was handed listening sockets or
/// has addresses to bind.
pub fn needs_proxy_server(activated_listeners: usize, proxy_bind: &Vec<String>) -> (r: bool)
    ensures
        r == (activated_listeners > 0 || proxy_bind@.len() > 0),
{
    activated_listeners > 0 || proxy_bind.len() > 0
}

/// The host names that routes are served under, in order (routes without one are left
/// out): the names the daemon's DNS server answers for.
pub open spec fn route_hosts(hosts: Seq<Option<String>>) -> Seq<Seq<char>>
    decreases hosts.len(),
{
    if hosts.len() == 0 {
        Seq::empty()
    } else {
        let rest = route_hosts(hosts.drop_last());
        match hosts.last() {
            Some(h) => rest.push(h@),
            None => rest,
        }
    }
}

/// The host names of the routes, given each route's host (see `route_hosts`).
pub fn hosts_of_routes(hosts: &Vec<Option<String>>) -> (r: Vec<String>)
    ensures
        string_views(r@) == route_hosts(hosts@),
{
    let mut r: Vec<String> = Vec::new();
    let mut i: usize = 0;
    while i < hosts.len()
        invariant
            i <= hosts@.len(),
            string_views(r@) == route_hosts(hosts@.take(i as int)),
        decreases hosts@.len() - i,
    {
        let ghost t = hosts@.take(i + 1);
        assert(t.drop_last() =~= hosts@.take(i as int));
        assert(t.last() == hosts@[i as int]);
        match &hosts[i] {
            Some(h) => {
                let ghost before = string_views(r@);
                r.push(h.clone());
                assert(string_views(r@) =~= before.push(h@));
            },
            None => {},
        }
        i = i + 1;
    }
    assert(hosts@.take(hosts@.len() as int) =~= hosts@);
    r
}

/// What a log stream subscribes to: log events, of the service `fqn` if one is given, at
/// the level `level` names or above (an unknown level name filters nothing).
pub fn log_stream_subscription(fqn: Option<&str>, level: Option<&str>) -> (r: EventSubscription)
    ensures
        string_views(r.event_types@) == seq!["log"@],
        string_views(r.services@) == match fqn {
            Some(f) => seq![f@],
            None => Seq::<Seq<char>>::empty(),
        },
        r.min_log_level == requested_level(
            match level {
                Some(l) => Some(l@),
                None => None,
            },
        ),
{
    let min_log_level: Option<LogLevel> = match level {
        Some(l) => match LogLevel::parse(l) {
            Ok(m) => Some(m),
            Err(_) => None,
        },
        None => None,
    };
    let mut event_types: Vec<String> = Vec::new();
    event_types.push("log".to_owned());
    let mut services: Vec<String> = Vec::new();
    match fqn {
        Some(f) => services.push(f.to_owned()),
        None => {},
    }
    assert(string_views(event_types@) =~= seq!["log"@]);
    assert(string_views(services@) =~= match fqn {
        Some(f) => seq![f@],
        None => Seq::<Seq<char>>::empty(),
    });
    EventSubscription { event_types, services, min_log_level }
}

/// What a service-state stream subscribes to: service events, of every service of the
/// source `source` (`<source>:*`) if one is given, else of all services.
pub fn service_stream_subscription(source: Option<&str>) -> (r: EventSubscription)
    ensures
        string_views(r.event_types@) == seq!["service_event"@],
        string_views(r.services@) == match source {
            Some(s) => seq![s@ + ":*"@],
            None => Seq::<Seq<char>>::empty(),
        },
        r.min_log_level is None,
{
    let mut event_types: Vec<String> = Vec::new();
    event_types.push("service_event".to_owned());
    let mut services: Vec<String> = Vec::new();
    match source {
        Some(s) => {
            let mut p = s.to_owned();
            p.append(":*");
            services.push(p);
        },
        None => {},
    }
    assert(string_views(event_types@) =~= seq!["service_event"@]);
    assert(string_views(services@) =~= match source {
        Some(s) => seq![s@ + ":*"@],
        None => Seq::<Seq<char>>::empty(),
    });
    EventSubscription { event_types, services, min_log_level: None }
}

// ---------------------------------------------------------------------------
// Answering a request
// ---------------------------------------------------------------------------

/// A service as the source manager reports it.
#[derive(Debug)]
pub struct ServiceReport {
    pub name: String,
    pub state: ServiceState,
    pub pid: Option<u32>,
    pub ports: Vec<(String, u16)>,
    pub healthy: Option<bool>,
    pub restart_count: u32,
}

/// A service's status as the daemon answers it.
#[derive(Debug, PartialEq, Eq)]
pub struct ServiceStatusAnswer {
    /// `<source>:<name>`.
    pub fqn: String,
    pub source: String,
    pub name: String,
    pub state: String,
    pub healthy: Option<bool>,
    pub pid: Option<u32>,
    pub ports: Vec<(String, u16)>,
    pub restart_count: u32,
}

/// An exposed service as the daemon answers it: its variables and ports by name only.
#[derive(Debug, PartialEq, Eq)]
pub struct ExposedAnswer {
    pub name: String,
    pub source: String,
    pub service: String,
    pub healthy: bool,
    pub var_names: Vec<String>,
    pub port_names: Vec<String>,
}

/// The daemon's status report.
#[derive(Debug, PartialEq, Eq)]
pub struct StatusAnswer {
    pub running: bool,
    pub pid: Option<u32>,
    pub version: String,
    pub source_count: usize,
    pub running_services: usize,
    pub total_services: usize,
    pub proxy_addresses: Vec<String>,
    pub uptime_secs: u64,
}

/// A request to the daemon (the streaming requests are handled by the connection).
#[derive(Debug)]
pub enum DaemonRequest {
    Ping,
    Status,
    ListSources,
    AddSource { path: String, name: Option<String> },
    GetServiceStatus { fqn: String },
    ListServices { source: Option<String> },
    ListExposed,
    GetLogs { fqn: Option<String>, lines: Option<u32>, since: Option<i64>, level: Option<String> },
    /// A request whose answer only reports how it went.
    Act(Command),
}

/// What the daemon's managers report for a request, gathered before it is answered:
/// each request reads the parts it needs.
#[derive(Debug)]
pub struct DaemonFacts {
    /// The sources (`Status`, `ListSources`).
    pub sources: Vec<SourceInfo>,
    /// The daemon's process, version, time up and proxy addresses (`Status`).
    pub pid: u32,
    pub version: String,
    pub uptime_secs: u64,
    pub proxy_addresses: Vec<String>,
    /// How the requested action went (`Act`).
    pub outcome: Result<(), String>,
    /// The name of an added source, or why it was not added (`AddSource`).
    pub added: Result<String, String>,
    /// The service looked up, with its source; or why the name is invalid
    /// (`GetServiceStatus`).
    pub service: Result<Option<(String, ServiceReport)>, String>,
    /// The services listed, with their sources (`ListServices`).
    pub services: Vec<(String, ServiceReport)>,
    /// The exposed services (`ListExposed`).
    pub exposed: Vec<ExposedService>,
}

/// The daemon's answer to a request.
#[derive(Debug)]
pub enum DaemonAnswer {
    Pong,
    Status(StatusAnswer),
    Reply(Answer),
    Sources(Vec<SourceInfo>),
    SourceAdded { name: String },
    Services(Vec<ServiceStatusAnswer>),
    Exposed(Vec<ExposedAnswer>),
    Logs(Vec<LogLine>),
}

/// How a service state is shown.
pub open spec fn state_text(s: ServiceState) -> Seq<char> {
    match s {
        ServiceState::Stopped => "stopped"@,
        ServiceState::Starting => "starting"@,
        ServiceState::Running => "running"@,
        ServiceState::Unhealthy => "unhealthy"@,
        ServiceState::Stopping => "stopping"@,
        ServiceState::Crashed => "crashed"@,
        ServiceState::Exited => "exited"@,
        ServiceState::PortConflict => "port conflict"@,
    }
}

/// `a` answers the status of the service `r` of the source `source`.
pub open spec fn reports_service(a: ServiceStatusAnswer, source: String, r: ServiceReport) -> bool {
    &&& a.fqn@ == source@ + ":"@ + r.name@
    &&& a.source == source
    &&& a.name == r.name
    &&& a.state@ == state_text(r.state)
    &&& a.healthy == r.healthy
    &&& a.pid == r.pid
    &&& a.ports == r.ports
    &&& a.restart_count == r.restart_count
}

/// The names of named values, in order.
pub open spec fn names_of<V>(v: Seq<(String, V)>) -> Seq<Seq<char>> {
    v.map_values(|p: (String, V)| p.0@)
}

/// `a` answers the exposed service `e`.
pub open spec fn reports_exposed(a: ExposedAnswer, e: ExposedService) -> bool {
    &&& a.name == e.name
    &&& a.source == e.source_name
    &&& a.service == e.service_name
    &&& a.healthy == e.healthy
    &&& string_views(a.var_names@) == names_of(e.vars@)
    &&& string_views(a.port_names@) == names_of(e.ports@)
}

fn names<V>(v: Vec<(String, V)>) -> (r: Vec<String>)
    ensures
        string_views(r@) == names_of(v@),
{
    let ghost all = v@;
    let mut rest = v;
    let mut r: Vec<String> = Vec::new();
    while rest.len() > 0
        invariant
            r@.len() + rest@.len() == all.len(),
            rest@ == all.subrange(r@.len() as int, all.len() as int),
            string_views(r@) == names_of(all.take(r@.len() as int)),
        decreases rest@.len(),
    {
        let ghost k = r@.len();
        let (name, _) = rest.remove(0);
        let ghost before = string_views(r@);
        r.push(name);
        assert(string_views(r@) =~= before.push(name@));
        assert(names_of(all.take(k as int + 1)) =~= names_of(all.take(k as int)).push(all[k as int].0@));
    }
    assert(all.take(all.len() as int) =~= all);
    r
}

fn state_str(s: ServiceState) -> (r: &'static str)
    ensures
        r@ == state_text(s),
{
    s.as_str()
}

fn service_answer(source: String, r: ServiceReport) -> (a: ServiceStatusAnswer)
    ensures
        reports_service(a, source, r),
{
    let fqn = concat(source.as_str(), ":");
    let mut fqn = fqn;
    fqn.append(r.name.as_str());
    ServiceStatusAnswer {
        fqn,
        source,
        name: r.name,
        state: state_str(r.state).to_owned(),
        healthy: r.healthy,
        pid: r.pid,
        ports: r.ports,
        restart_count: r.restart_count,
    }
}

fn service_answers(v: Vec<(String, ServiceReport)>) -> (r: Vec<ServiceStatusAnswer>)
    ensures
        r@.len() == v@.len(),
        forall|i: int| 0 <= i < v@.len() ==> reports_service(#[trigger] r@[i], v@[i].0, v@[i].1),
{
    let ghost all = v@;
    let mut rest = v;
    let mut r: Vec<ServiceStatusAnswer> = Vec::new();
    while rest.len() > 0
        invariant
            r@.len() + rest@.len() == all.len(),
            rest@ == all.subrange(r@.len() as int, all.len() as int),
            forall|i: int| 0 <= i < r@.len() ==> reports_service(#[trigger] r@[i], all[i].0, all[i].1),
        decreases rest@.len(),
    {
        let ghost k = r@.len();
        assert(rest@[0] == all[k as int]);
        let (source, report) = rest.remove(0);
        r.push(service_answer(source, report));
    }
    r
}

fn exposed_answers(v: Vec<ExposedService>) -> (r: Vec<ExposedAnswer>)
    ensures
        r@.len() == v@.len(),
        forall|i: int| 0 <= i < v@.len() ==> reports_exposed(#[trigger] r@[i], v@[i]),
{
    let ghost all = v@;
    let mut rest = v;
    let mut r: Vec<ExposedAnswer> = Vec::new();
    while rest.len() > 0
        invariant
            r@.len() + rest@.len() == all.len(),
            rest@ == all.subrange(r@.len() as int, all.len() as int),
            forall|i: int| 0 <= i < r@.len() ==> reports_exposed(#[trigger] r@[i], all[i]),
        decreases rest@.len(),
    {
        let ghost k = r@.len();
        assert(rest@[0] == all[k as int]);
        let e = rest.remove(0);
        let a = ExposedAnswer {
            name: e.name,
            source: e.source_name,
            service: e.service_name,
            healthy: e.healthy,
            var_names: names(e.vars),
            port_names: names(e.ports),
        };
        r.push(a);
    }
    r
}

/// The daemon's answer to `request`, from what its managers report (`facts`) and its log
/// buffer. `Ping` is answered `Pong`. `Status` reports the daemon running with its
/// process, version, number of sources, services in running sources and in all sources,
/// proxy addresses and time up. `ListSources` gives the sources. `AddSource` gives the
/// added source's name, or `ADD_SOURCE_FAILED`. `GetServiceStatus` gives the service's
/// status, `NOT_FOUND` for an unknown service, `INVALID_FQN` for a bad name.
/// `ListServices` and `ListExposed` give each listed service. `GetLogs` gives the lines
/// `select_logs` selects. Other requests are answered by `answer_command`.
pub fn answer_request(request: &DaemonRequest, facts: DaemonFacts, buffer: &LogBuffer) -> (r: DaemonAnswer)
    requires
        buffer.wf(),
        request is Status ==> service_totals(facts.sources@).1 <= usize::MAX,
    ensures
        match request {
            DaemonRequest::Ping => r is Pong,
            DaemonRequest::Status => r matches DaemonAnswer::Status(s) && {
                &&& s.running
                &&& s.pid == Some(facts.pid)
                &&& s.version == facts.version
                &&& s.source_count == facts.sources@.len()
                &&& s.running_services == service_totals(facts.sources@).0
                &&& s.total_services == service_totals(facts.sources@).1
                &&& s.proxy_addresses == facts.proxy_addresses
                &&& s.uptime_secs == facts.uptime_secs
            },
            DaemonRequest::ListSources => r == DaemonAnswer::Sources(facts.sources),
            DaemonRequest::AddSource { .. } => match facts.added {
                Ok(n) => r == DaemonAnswer::SourceAdded { name: n },
                Err(e) => r matches DaemonAnswer::Reply(a) && answer_view(a) == AnswerView::Error("ADD_SOURCE_FAILED"@, e@),
            },
            DaemonRequest::GetServiceStatus { fqn } => match facts.service {
                Ok(Some((source, report))) => r matches DaemonAnswer::Services(v) && v@.len() == 1
                    && reports_service(v@[0], source, report),
                Ok(None) => r matches DaemonAnswer::Reply(a) && answer_view(a) == AnswerView::Error(
                    "NOT_FOUND"@,
                    "Service '"@ + fqn@ + "' not found"@,
                ),
                Err(e) => r matches DaemonAnswer::Reply(a) && answer_view(a) == AnswerView::Error("INVALID_FQN"@, e@),
            },
            DaemonRequest::ListServices { .. } => r matches DaemonAnswer::Services(v) && v@.len() == facts.services@.len()
                && forall|i: int| 0 <= i < v@.len() ==> reports_service(#[trigger] v@[i], facts.services@[i].0, facts.services@[i].1),
            DaemonRequest::ListExposed => r matches DaemonAnswer::Exposed(v) && v@.len() == facts.exposed@.len()
                && forall|i: int| 0 <= i < v@.len() ==> reports_exposed(#[trigger] v@[i], facts.exposed@[i]),
            DaemonRequest::GetLogs { fqn, lines, since, level } => r matches DaemonAnswer::Logs(l) && selected_logs(
                *buffer,
                match fqn {
                    Some(f) => Some(f@),
                    None => None,
                },
                *lines,
                *since,
                match level {
                    Some(v) => Some(v@),
                    None => None,
                },
                l@,
            ),
            DaemonRequest::Act(command) => r matches DaemonAnswer::Reply(a) && answer_view(a) == command_answer(
                command_view(*command),
                match facts.outcome {
                    Ok(()) => Ok(()),
                    Err(e) => Err(e@),
                },
            ),
        },
{
    match request {
        DaemonRequest::Ping => DaemonAnswer::Pong,
        DaemonRequest::Status => {
            let (running_services, total_services) = count_services(&facts.sources);
            let source_count = facts.sources.len();
            DaemonAnswer::Status(
                StatusAnswer {
                    running: true,
                    pid: Some(facts.pid),
                    version: facts.version,
                    source_count,
                    running_services,
                    total_services,
                    proxy_addresses: facts.proxy_addresses,
                    uptime_secs: facts.uptime_secs,
                },
            )
        },
        DaemonRequest::ListSources => DaemonAnswer::Sources(facts.sources),
        DaemonRequest::AddSource { .. } => match facts.added {
            Ok(name) => DaemonAnswer::SourceAdded { name },
            Err(e) => DaemonAnswer::Reply(Answer::Error { code: "ADD_SOURCE_FAILED".to_owned(), message: e }),
        },
        DaemonRequest::GetServiceStatus { fqn } => match facts.service {
            Ok(Some((source, report))) => {
                let mut v: Vec<ServiceStatusAnswer> = Vec::new();
                v.push(service_answer(source, report));
                DaemonAnswer::Services(v)
            },
            Ok(None) => DaemonAnswer::Reply(service_not_found(fqn.as_str())),
            Err(e) => DaemonAnswer::Reply(Answer::Error { code: "INVALID_FQN".to_owned(), message: e }),
        },
        DaemonRequest::ListServices { .. } => DaemonAnswer::Services(service_answers(facts.services)),
        DaemonRequest::ListExposed => DaemonAnswer::Exposed(exposed_answers(facts.exposed)),
        DaemonRequest::GetLogs { fqn, lines, since, level } => {
            let f: Option<&str> = match fqn {
                Some(x) => Some(x.as_str()),
                None => None,
            };
            let l: Option<&str> = match level {
                Some(x) => Some(x.as_str()),
                None => None,
            };
            DaemonAnswer::Logs(select_logs(buffer, f, *lines, *since, l))
        },
        DaemonRequest::Act(command) => DaemonAnswer::Reply(answer_command(command, facts.outcome)),
    }
}

} // verus!
