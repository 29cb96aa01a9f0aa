//! Configuration sources as the daemon manages them, and reading their names.

use vstd::prelude::*;
use crate::config::SourceType;
use crate::fqn::{fqn_parts, split_fqn};
use crate::text::has_suffix;

verus! {

/// A configuration source and how it is doing.
#[derive(Debug)]
pub struct SourceInfo {
    /// e.g. `default`, a project name
    pub name: String,
    pub path: String,
    pub source_type: SourceType,
    pub enabled: bool,
    pub service_count: usize,
    pub status: SourceStatus,
}

/// How a source is doing.
#[derive(Debug)]
pub enum SourceStatus {
    Loaded,
    Running,
    Stopped,
    Error(String),
}

/// The message for a service name without a source.
pub open spec fn missing_source_text(fqn: Seq<char>) -> Seq<char> {
    "Service name '"@ + fqn
        + "' must include source (e.g., 'source:service'). Use 'adi hive status' to see available sources."@
}

/// The source and service of `source:service` (split at the first `:`).
pub fn parse_fqn(fqn: &str) -> (r: Result<(String, String), String>)
    ensures
        match r {
            Ok((source, service)) => fqn_parts(fqn@) == Some((source@, service@)),
            Err(m) => fqn_parts(fqn@) is None && m@ == missing_source_text(fqn@),
        },
{
    match split_fqn(fqn) {
        Some(p) => Ok(p),
        None => {
            let mut m = "Service name '".to_owned();
            m.append(fqn);
            m.append("' must include source (e.g., 'source:service'). Use 'adi hive status' to see available sources.");
            Err(m)
        },
    }
}

/// What the file system says about a path that might be a source.
#[derive(Debug)]
pub struct SourceProbe {
    /// The path's extension, if it has one.
    pub extension: Option<String>,
    /// The path is a directory.
    pub is_dir: bool,
    /// The directory holds `hive.db`.
    pub has_hive_db: bool,
    /// The directory holds `.adi/hive.yaml` or `hive.yaml`.
    pub has_hive_yaml: bool,
}

/// The kind of source a path holds: a `.db` file or a directory with `hive.db` is a
/// database; a directory with `hive.yaml` (or `.adi/hive.yaml`) is a YAML source.
pub open spec fn source_type_of(p: SourceProbe) -> Option<SourceType> {
    if p.extension matches Some(e) && e@ == "db"@ {
        Some(SourceType::Sqlite)
    } else if p.is_dir && p.has_hive_db {
        Some(SourceType::Sqlite)
    } else if p.is_dir && p.has_hive_yaml {
        Some(SourceType::Yaml)
    } else {
        None
    }
}

/// The kind of source at a probed path.
pub fn detect_source_type(probe: &SourceProbe) -> (r: Option<SourceType>)
    ensures
        r == source_type_of(*probe),
{
    match &probe.extension {
        Some(e) => {
            if crate::text::str_eq(e.as_str(), "db") {
                return Some(SourceType::Sqlite);
            }
        },
        None => {},
    }
    if probe.is_dir {
        if probe.has_hive_db {
            return Some(SourceType::Sqlite);
        }
        if probe.has_hive_yaml {
            return Some(SourceType::Yaml);
        }
    }
    None
}

} // verus!
