//! The daemon's configuration and its start-up: the checks and services it brings up in
//! order, what it does when one of them fails, and what it tears down once it is told to
//! stop. The work of each step (files, sockets, servers) is done around this state
//! machine, which decides the next step from how the last one went.

use vstd::prelude::*;
use crate::daemon_answers::{already_running_message, hosts_of_routes, needs_proxy_server, route_hosts};
use crate::dns::{collect_tlds, tld_of, DnsConfig};
use crate::flags::{join_path, joined};
use crate::settings::string_views;
use crate::sizes::{bad_bind_text, extract_dns_port};
use crate::text::{decimal, parse_unsigned, texts};
use crate::dns::last_segment;

verus! {

/// The name of the daemon's control socket in its directory.
pub const SOCKET_NAME: &'static str = "adi-hive.sock";

/// The name of the daemon's process-id file in its directory.
pub const PID_NAME: &'static str = "adi-hive.pid";

/// How many log lines the daemon keeps.
pub const LOG_BUFFER_CAPACITY: usize = 10000;

/// Where the daemon keeps its files, what it serves, and its DNS settings.
#[derive(Debug)]
pub struct DaemonConfig {
    pub base_dir: String,
    pub socket_name: String,
    pub pid_name: String,
    pub proxy_bind: Vec<String>,
    /// How many listening sockets the daemon was handed by the system.
    pub activated_listeners: usize,
    pub dns: DnsConfig,
    /// The source that holds cocoons, when the signaling server is configured.
    pub cocoon_source_id: Option<String>,
}

impl DaemonConfig {
    /// The daemon of directory `base_dir`, with the default socket and process-id file
    /// names, no proxy addresses, no handed sockets, the default DNS settings and no
    /// signaling.
    pub fn new(base_dir: &str) -> (r: Self)
        ensures
            r.base_dir@ == base_dir@,
            r.socket_name@ == SOCKET_NAME@,
            r.pid_name@ == PID_NAME@,
            r.proxy_bind@.len() == 0,
            r.activated_listeners == 0,
            !r.dns.enabled,
            r.cocoon_source_id is None,
    {
        DaemonConfig {
            base_dir: base_dir.to_owned(),
            socket_name: SOCKET_NAME.to_owned(),
            pid_name: PID_NAME.to_owned(),
            proxy_bind: Vec::new(),
            activated_listeners: 0,
            dns: DnsConfig::default(),
            cocoon_source_id: None,
        }
    }

    /// The same configuration, handed `listeners` listening sockets.
    pub fn with_activated_listeners(self, listeners: usize) -> (r: Self)
        ensures
            r == (DaemonConfig { activated_listeners: listeners, ..self }),
    {
        DaemonConfig { activated_listeners: listeners, ..self }
    }

    /// The same configuration, with the DNS settings `dns`.
    pub fn with_dns(self, dns: DnsConfig) -> (r: Self)
        ensures
            r == (DaemonConfig { dns, ..self }),
    {
        DaemonConfig { dns, ..self }
    }

    /// The same configuration, connected to the signaling server with cocoons in the
    /// source `cocoon_source_id`.
    pub fn with_signaling(self, cocoon_source_id: String) -> (r: Self)
        ensures
            r == (DaemonConfig { cocoon_source_id: Some(cocoon_source_id), ..self }),
    {
        DaemonConfig { cocoon_source_id: Some(cocoon_source_id), ..self }
    }

    /// The control socket: `<base dir>/<socket name>`.
    pub fn socket_path(&self) -> (r: String)
        ensures
            r@ == joined(self.base_dir@, self.socket_name@),
    {
        join_path(self.base_dir.as_str(), self.socket_name.as_str())
    }

    /// The process-id file: `<base dir>/<pid name>`.
    pub fn pid_path(&self) -> (r: String)
        ensures
            r@ == joined(self.base_dir@, self.pid_name@),
    {
        join_path(self.base_dir.as_str(), self.pid_name.as_str())
    }

    /// The daemon's directory.
    pub fn base_dir(&self) -> (r: &str)
        ensures
            r@ == self.base_dir@,
    {
        self.base_dir.as_str()
    }
}

/// The next thing the daemon does while it starts, serves and stops.
#[derive(Debug)]
pub enum StartupAction {
    /// Read the process-id file: is a daemon running?
    CheckRunning,
    /// Write this process's id to the process-id file.
    WritePid,
    /// Load the sources.
    InitSources,
    /// Add the virtual source that holds cocoons.
    AddVirtualSource { source_id: String },
    /// Start the proxy server on these addresses (and the handed sockets).
    StartProxy { addresses: Vec<String> },
    /// Record these host names (to the local address) and start the DNS server.
    StartDns { hosts: Vec<String> },
    /// Write the resolver files of these top-level domains for a server on `port`.
    WriteResolvers { tlds: Vec<String>, port: u16 },
    /// Keep the DNS records and resolver files in step with the routes, for a server on
    /// `port`.
    WatchRoutes { port: u16 },
    /// Listen on the control socket and serve clients until told to stop.
    Listen,
    /// Stop the signaling connection and the DNS server, remove the resolver files of
    /// these domains, remove the process-id file and stop every source.
    Stop { tlds: Vec<String> },
    /// Give up starting, with this error.
    Fail(String),
}

/// How the last step went.
#[derive(Debug)]
pub enum StartupEvent {
    /// The process-id file names a running daemon, or none.
    Checked(Option<u32>),
    /// The step is done (for `Listen`: the daemon was told to stop).
    Done,
    Failed(String),
}

/// Where the start-up stands.
#[derive(Clone, Copy, Debug, PartialEq, Eq, Structural)]
pub enum StartupPhase {
    CheckRunning,
    WritePid,
    InitSources,
    AddVirtualSource,
    StartProxy,
    StartDns,
    WriteResolvers,
    WatchRoutes,
    Listen,
    Finished,
}

/// A daemon starting.
#[derive(Debug)]
pub struct DaemonStartup {
    pub config: DaemonConfig,
    /// The host names of the routes when the daemon starts.
    pub hosts: Vec<String>,
    pub phase: StartupPhase,
    /// The top-level domains whose resolver files were written.
    pub tlds: Vec<String>,
    /// The DNS server's port.
    pub dns_port: u16,
}

/// `tlds` holds each top-level domain of `hosts` once.
pub open spec fn tlds_of(hosts: Seq<Seq<char>>, tlds: Seq<Seq<char>>) -> bool {
    &&& tlds.no_duplicates()
    &&& forall|t: Seq<char>| #[trigger] tlds.contains(t) <==> exists|i: int| 0 <= i < hosts.len() && tld_of(#[trigger] hosts[i]) == t
}

/// The port of the DNS server's bind address, if it names one.
pub open spec fn bind_port(bind: Seq<char>) -> Option<nat> {
    parse_unsigned(last_segment(bind, ':'), u16::MAX as nat)
}

/// `a` gives up starting with `message`.
pub open spec fn is_fail(a: StartupAction, message: Seq<char>) -> bool {
    match a {
        StartupAction::Fail(m) => m@ == message,
        _ => false,
    }
}

impl DaemonStartup {
    /// A daemon about to start with `config`, whose routes are served under the host names
    /// `routes` (a route without one is `None`): it first checks whether a daemon runs.
    pub fn new(config: DaemonConfig, routes: &Vec<Option<String>>) -> (r: (Self, StartupAction))
        ensures
            r.0.config == config,
            string_views(r.0.hosts@) == route_hosts(routes@),
            r.0.phase == StartupPhase::CheckRunning,
            r.0.tlds@.len() == 0,
            r.1 is CheckRunning,
    {
        let hosts = hosts_of_routes(routes);
        (DaemonStartup { config, hosts, phase: StartupPhase::CheckRunning, tlds: Vec::new(), dns_port: 0 }, StartupAction::CheckRunning)
    }

    /// The steps after the virtual source: the proxy server when the daemon serves one,
    /// else what follows it.
    fn after_sources(&mut self) -> (a: StartupAction)
        ensures
            final(self).config == old(self).config,
            final(self).hosts == old(self).hosts,
            final(self).tlds == old(self).tlds,
            if old(self).config.activated_listeners > 0 || old(self).config.proxy_bind@.len() > 0 {
                final(self).phase == StartupPhase::StartProxy && (a matches StartupAction::StartProxy { addresses }
                    && addresses@ == old(self).config.proxy_bind@)
            } else {
                final(self).dns_port == old(self).dns_port && self_after_proxy(*final(self), a)
            },
    {
        if needs_proxy_server(self.config.activated_listeners, &self.config.proxy_bind) {
            self.phase = StartupPhase::StartProxy;
            let mut addresses: Vec<String> = Vec::new();
            let mut i: usize = 0;
            while i < self.config.proxy_bind.len()
                invariant
                    i <= self.config.proxy_bind@.len(),
                    addresses@ == self.config.proxy_bind@.take(i as int),
                decreases self.config.proxy_bind@.len() - i,
            {
                addresses.push(self.config.proxy_bind[i].clone());
                assert(self.config.proxy_bind@.take(i + 1) =~= self.config.proxy_bind@.take(i as int).push(self.config.proxy_bind@[i as int]));
                i = i + 1;
            }
            assert(self.config.proxy_bind@.take(self.config.proxy_bind@.len() as int) =~= self.config.proxy_bind@);
            StartupAction::StartProxy { addresses }
        } else {
            self.after_proxy()
        }
    }

    /// The steps after the proxy server: the DNS server when it is enabled, else listening.
    fn after_proxy(&mut self) -> (a: StartupAction)
        ensures
            final(self).config == old(self).config,
            final(self).hosts == old(self).hosts,
            final(self).tlds == old(self).tlds,
            final(self).dns_port == old(self).dns_port,
            self_after_proxy(*final(self), a),
    {
        if self.config.dns.enabled {
            self.phase = StartupPhase::StartDns;
            let mut hosts: Vec<String> = Vec::new();
            let mut i: usize = 0;
            while i < self.hosts.len()
                invariant
                    i <= self.hosts@.len(),
                    hosts@ == self.hosts@.take(i as int),
                decreases self.hosts@.len() - i,
            {
                hosts.push(self.hosts[i].clone());
                assert(self.hosts@.take(i + 1) =~= self.hosts@.take(i as int).push(self.hosts@[i as int]));
                i = i + 1;
            }
            assert(self.hosts@.take(self.hosts@.len() as int) =~= self.hosts@);
            StartupAction::StartDns { hosts }
        } else {
            self.phase = StartupPhase::Listen;
            StartupAction::Listen
        }
    }

    /// The port for watching the routes, once the DNS server was tried.
    fn watch_routes(&mut self) -> (a: StartupAction)
        ensures
            final(self).config == old(self).config,
            final(self).hosts == old(self).hosts,
            final(self).tlds == old(self).tlds,
            match bind_port(old(self).config.dns.bind@) {
                Some(p) => final(self).phase == StartupPhase::WatchRoutes && final(self).dns_port == p
                    && (a matches StartupAction::WatchRoutes { port } && port == p),
                None => final(self).phase == StartupPhase::Finished && is_fail(a, bad_bind_text(old(self).config.dns.bind@)),
            },
    {
        match extract_dns_port(self.config.dns.bind.as_str()) {
            Ok(port) => {
                self.phase = StartupPhase::WatchRoutes;
                self.dns_port = port;
                StartupAction::WatchRoutes { port }
            },
            Err(m) => {
                self.phase = StartupPhase::Finished;
                StartupAction::Fail(m)
            },
        }
    }

    /// Whether `event` can follow where the start-up stands.
    pub open spec fn expects(&self, event: StartupEvent) -> bool {
        match self.phase {
            StartupPhase::CheckRunning => event is Checked,
            StartupPhase::Finished => false,
            _ => !(event is Checked),
        }
    }

    /// The next step after `event`. A running daemon stops the start (`Daemon is already
    /// running ...`); a process-id file that cannot be written stops it with `Failed to
    /// write PID file: ...`; a failure to load the sources, add the cocoon source, start
    /// the proxy, or listen stops it with that failure. Then: the sources; the cocoon
    /// source when signaling is configured; the proxy when there are addresses or handed
    /// sockets; with DNS enabled, the DNS server over the route host names, whose failure
    /// only leaves DNS out, and when it started the resolver files of their top-level
    /// domains (whose failure is only warned about); then, with DNS enabled, the watch
    /// of the routes; and a DNS bind address without a port stops the start. Serving ends
    /// in `Stop` with the domains whose resolver files were written.
    pub fn step(&mut self, event: StartupEvent) -> (a: StartupAction)
        requires
            old(self).expects(event),
        ensures
            final(self).config == old(self).config,
            final(self).hosts == old(self).hosts,
            match (old(self).phase, event) {
                (StartupPhase::CheckRunning, StartupEvent::Checked(Some(pid))) => final(self).phase == StartupPhase::Finished
                    && is_fail(a, "Daemon is already running (pid: "@ + decimal(pid as nat) + "). Use 'adi hive daemon stop' to stop it."@),
                (StartupPhase::CheckRunning, StartupEvent::Checked(None)) => final(self).phase == StartupPhase::WritePid
                    && a is WritePid,
                (StartupPhase::WritePid, StartupEvent::Done) => final(self).phase == StartupPhase::InitSources && a is InitSources,
                (StartupPhase::WritePid, StartupEvent::Failed(e)) => final(self).phase == StartupPhase::Finished
                    && is_fail(a, "Failed to write PID file: "@ + e@),
                (StartupPhase::InitSources, StartupEvent::Done) => match old(self).config.cocoon_source_id {
                    Some(id) => final(self).phase == StartupPhase::AddVirtualSource
                        && (a matches StartupAction::AddVirtualSource { source_id } && source_id == id),
                    None => after_sources_step(*old(self), *final(self), a),
                },
                (StartupPhase::AddVirtualSource, StartupEvent::Done) => after_sources_step(*old(self), *final(self), a),
                (StartupPhase::StartProxy, StartupEvent::Done) => final(self).tlds == old(self).tlds
                    && self_after_proxy(*final(self), a),
                (StartupPhase::StartDns, StartupEvent::Done) => match bind_port(old(self).config.dns.bind@) {
                    Some(p) => final(self).phase == StartupPhase::WriteResolvers && final(self).dns_port == p
                        && tlds_of(string_views(old(self).hosts@), string_views(final(self).tlds@))
                        && (a matches StartupAction::WriteResolvers { tlds, port } && tlds@ == final(self).tlds@ && port == p),
                    None => final(self).phase == StartupPhase::Finished && is_fail(a, bad_bind_text(old(self).config.dns.bind@)),
                },
                (StartupPhase::StartDns, StartupEvent::Failed(_)) => final(self).tlds == old(self).tlds
                    && watch_step(*old(self), *final(self), a),
                (StartupPhase::WriteResolvers, _) => final(self).tlds == old(self).tlds && watch_step(*old(self), *final(self), a),
                (StartupPhase::WatchRoutes, _) => final(self).phase == StartupPhase::Listen && a is Listen,
                (StartupPhase::Listen, StartupEvent::Done) => final(self).phase == StartupPhase::Finished
                    && (a matches StartupAction::Stop { tlds } && tlds@ == old(self).tlds@),
                (_, StartupEvent::Failed(e)) => final(self).phase == StartupPhase::Finished && is_fail(a, e@),
                _ => false,
            },
    {
        match (self.phase, event) {
            (StartupPhase::CheckRunning, StartupEvent::Checked(Some(pid))) => {
                self.phase = StartupPhase::Finished;
                StartupAction::Fail(already_running_message(pid))
            },
            (StartupPhase::CheckRunning, StartupEvent::Checked(None)) => {
                self.phase = StartupPhase::WritePid;
                StartupAction::WritePid
            },
            (StartupPhase::WritePid, StartupEvent::Done) => {
                self.phase = StartupPhase::InitSources;
                StartupAction::InitSources
            },
            (StartupPhase::WritePid, StartupEvent::Failed(e)) => {
                self.phase = StartupPhase::Finished;
                let mut m = "Failed to write PID file: ".to_owned();
                m.append(e.as_str());
                StartupAction::Fail(m)
            },
            (StartupPhase::InitSources, StartupEvent::Done) => match &self.config.cocoon_source_id {
                Some(id) => {
                    let source_id = id.clone();
                    self.phase = StartupPhase::AddVirtualSource;
                    StartupAction::AddVirtualSource { source_id }
                },
                None => self.after_sources(),
            },
            (StartupPhase::AddVirtualSource, StartupEvent::Done) => self.after_sources(),
            (StartupPhase::StartProxy, StartupEvent::Done) => self.after_proxy(),
            (StartupPhase::StartDns, StartupEvent::Done) => {
                let tlds = collect_tlds(self.hosts.as_slice());
                match extract_dns_port(self.config.dns.bind.as_str()) {
                    Ok(port) => {
                        let mut copy: Vec<String> = Vec::new();
                        let mut i: usize = 0;
                        while i < tlds.len()
                            invariant
                                i <= tlds@.len(),
                                copy@ == tlds@.take(i as int),
                            decreases tlds@.len() - i,
                        {
                            copy.push(tlds[i].clone());
                            assert(tlds@.take(i + 1) =~= tlds@.take(i as int).push(tlds@[i as int]));
                            i = i + 1;
                        }
                        assert(tlds@.take(tlds@.len() as int) =~= tlds@);
                        proof {
                            assert(texts(tlds@) == string_views(tlds@));
                            assert(forall|i: int| 0 <= i < self.hosts@.len() ==> #[trigger] self.hosts@[i]@ == string_views(self.hosts@)[i]);
                        }
                        self.tlds = tlds;
                        self.dns_port = port;
                        self.phase = StartupPhase::WriteResolvers;
                        StartupAction::WriteResolvers { tlds: copy, port }
                    },
                    Err(m) => {
                        self.phase = StartupPhase::Finished;
                        StartupAction::Fail(m)
                    },
                }
            },
            (StartupPhase::StartDns, StartupEvent::Failed(_)) => self.watch_routes(),
            (StartupPhase::WriteResolvers, _) => self.watch_routes(),
            (StartupPhase::WatchRoutes, _) => {
                self.phase = StartupPhase::Listen;
                StartupAction::Listen
            },
            (StartupPhase::Listen, StartupEvent::Done) => {
                self.phase = StartupPhase::Finished;
                let mut tlds: Vec<String> = Vec::new();
                let mut i: usize = 0;
                while i < self.tlds.len()
                    invariant
                        i <= self.tlds@.len(),
                        tlds@ == self.tlds@.take(i as int),
                    decreases self.tlds@.len() - i,
                {
                    tlds.push(self.tlds[i].clone());
                    assert(self.tlds@.take(i + 1) =~= self.tlds@.take(i as int).push(self.tlds@[i as int]));
                    i = i + 1;
                }
                assert(self.tlds@.take(self.tlds@.len() as int) =~= self.tlds@);
                StartupAction::Stop { tlds }
            },
            (_, StartupEvent::Failed(e)) => {
                self.phase = StartupPhase::Finished;
                StartupAction::Fail(e)
            },
            (_, StartupEvent::Done) | (_, StartupEvent::Checked(_)) => {
                proof {
                    assert(false);
                }
                StartupAction::Listen
            },
        }
    }
}

/// The step after the proxy: the DNS server over the route host names when DNS is
/// enabled, else listening.
pub open spec fn self_after_proxy(s: DaemonStartup, a: StartupAction) -> bool {
    if s.config.dns.enabled {
        s.phase == StartupPhase::StartDns && (a matches StartupAction::StartDns { hosts } && hosts@ == s.hosts@)
    } else {
        s.phase == StartupPhase::Listen && a is Listen
    }
}

/// The step after the sources: the proxy server when there are addresses or handed
/// sockets, else the step after the proxy.
pub open spec fn after_sources_step(before: DaemonStartup, after: DaemonStartup, a: StartupAction) -> bool {
    &&& after.tlds == before.tlds
    &&& if before.config.activated_listeners > 0 || before.config.proxy_bind@.len() > 0 {
        after.phase == StartupPhase::StartProxy && (a matches StartupAction::StartProxy { addresses }
            && addresses@ == before.config.proxy_bind@)
    } else {
        self_after_proxy(after, a)
    }
}

/// The watch of the routes on the DNS server's port, or the failure for a bind address
/// without one.
pub open spec fn watch_step(before: DaemonStartup, after: DaemonStartup, a: StartupAction) -> bool {
    match bind_port(before.config.dns.bind@) {
        Some(p) => after.phase == StartupPhase::WatchRoutes && after.dns_port == p
            && (a matches StartupAction::WatchRoutes { port } && port == p),
        None => after.phase == StartupPhase::Finished && is_fail(a, bad_bind_text(before.config.dns.bind@)),
    }
}

} // verus!
