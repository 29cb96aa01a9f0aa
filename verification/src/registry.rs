//! Records kept about sources and services between runs: the global list of sources, the
//! runtime state of a service, and the daemon's own lifecycle events.

use vstd::prelude::*;
use crate::config::SourceType;

verus! {

/// A source in the global registry.
#[derive(Clone, Debug)]
pub struct RegisteredSource {
    pub name: String,
    pub path: String,
    /// `yaml` or `sqlite`.
    pub source_type: String,
    pub enabled: bool,
    pub last_accessed: Option<String>,
    pub created_at: Option<String>,
}

/// The name and path of each enabled source, in order.
pub open spec fn enabled_entries(s: Seq<RegisteredSource>) -> Seq<(Seq<char>, Seq<char>)>
    decreases s.len(),
{
    if s.len() == 0 {
        Seq::empty()
    } else if s.last().enabled {
        enabled_entries(s.drop_last()).push((s.last().name@, s.last().path@))
    } else {
        enabled_entries(s.drop_last())
    }
}

/// The enabled sources of the registry, by name (a later source of the same name wins).
pub fn read_sources_registry(sources: &Vec<RegisteredSource>) -> (r: Vec<(String, String)>)
    ensures
        r@.map_values(|p: (String, String)| (p.0@, p.1@)) == enabled_entries(sources@),
{
    let mut r: Vec<(String, String)> = Vec::new();
    let mut i: usize = 0;
    while i < sources.len()
        invariant
            i <= sources@.len(),
            r@.map_values(|p: (String, String)| (p.0@, p.1@)) == enabled_entries(sources@.take(i as int)),
        decreases sources@.len() - i,
    {
        assert(sources@.take(i + 1).drop_last() =~= sources@.take(i as int));
        assert(sources@.take(i + 1).last() == sources@[i as int]);
        if sources[i].enabled {
            let ghost before = r@;
            let e = (sources[i].name.clone(), sources[i].path.clone());
            r.push(e);
            assert(r@.map_values(|p: (String, String)| (p.0@, p.1@)) =~= before.map_values(|p: (String, String)| (p.0@, p.1@)).push((e.0@, e.1@)));
        }
        i = i + 1;
    }
    assert(sources@.take(sources@.len() as int) =~= sources@);
    r
}

/// The kind of a source moved from the old JSON list: a database when its directory
/// holds `hive.db`, YAML otherwise.
pub fn legacy_source_type(has_hive_db: bool) -> (r: SourceType)
    ensures
        r == (if has_hive_db { SourceType::Sqlite } else { SourceType::Yaml }),
{
    if has_hive_db {
        SourceType::Sqlite
    } else {
        SourceType::Yaml
    }
}

/// What is recorded about a service between runs.
#[derive(Clone, Debug)]
pub struct RuntimeState {
    pub state: String,
    pub pid: Option<i64>,
    pub container_id: Option<String>,
    pub started_at: Option<String>,
    pub stopped_at: Option<String>,
    pub restart_count: i64,
    pub last_exit_code: Option<i32>,
    pub last_error: Option<String>,
}

impl Default for RuntimeState {
    /// A stopped service that never ran.
    fn default() -> (r: Self)
        ensures
            r.state@ == "stopped"@,
            r.pid is None,
            r.container_id is None,
            r.started_at is None,
            r.stopped_at is None,
            r.restart_count == 0,
            r.last_exit_code is None,
            r.last_error is None,
    {
        RuntimeState {
            state: "stopped".to_owned(),
            pid: None,
            container_id: None,
            started_at: None,
            stopped_at: None,
            restart_count: 0,
            last_exit_code: None,
            last_error: None,
        }
    }
}

/// A lifecycle event of the daemon, as core plugins receive it.
#[derive(Clone, Debug)]
pub enum DaemonEvent {
    DaemonStarted,
    DaemonShutdown,
    SourceAdded { name: String },
    SourceRemoved { name: String },
    ServiceStarted { fqn: String },
    ServiceStopped { fqn: String },
    ServiceCrashed { fqn: String, exit_code: i32 },
    ServiceHealthChanged { fqn: String, healthy: bool },
}

} // verus!
