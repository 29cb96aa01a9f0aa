//! Observability plugins: printing events to the console, and the decisions of writing
//! them to per-service log files.
//!
//! An event is printed as one line. The pretty form starts with the event's time in UTC
//! (`2024-01-02T03:04:05.678`), which chrono writes; the JSON form, and the debug form of
//! events that the pretty and compact forms do not cover, are written by serde and `Debug`
//! outside this crate.

use vstd::prelude::*;
use crate::log_level::{level_named, rank, LogLevel};
use crate::observability::{HealthStatus, ObservabilityEvent, ServiceEventType};
use crate::settings::{bool_setting, text_setting, Settings};
use crate::sizes::{size_bytes, parse_size};
use crate::case::lowercase;
use crate::text::str_eq;

verus! {

/// The chrono pattern of the time that starts a pretty line.
pub open spec fn pretty_time_pattern() -> Seq<char> {
    "%Y-%m-%dT%H:%M:%S%.3f"@
}

/// The chrono pattern of the time in the name of a rotated log file.
pub open spec fn rotation_time_pattern() -> Seq<char> {
    "%Y%m%d%H%M%S"@
}

/// What chrono writes for the UTC instant `micros` microseconds after the Unix epoch in
/// the strftime pattern `pattern`; `None` where the instant lies outside chrono's range of
/// dates.
pub uninterp spec fn utc_text(micros: int, pattern: Seq<char>) -> Option<Seq<char>>;

/// `chrono::DateTime::<Utc>::from_timestamp_micros` followed by `format(pattern)`: the
/// instant written in the pattern, or `None` where chrono has no such date. The text is
/// only named (`utc_text`), not described. The patterns admitted are those this crate
/// uses, whose items chrono always formats.
#[verifier::external_body]
fn format_utc(micros: i64, pattern: &str) -> (r: Option<String>)
    requires
        pattern@ == pretty_time_pattern() || pattern@ == rotation_time_pattern(),
    ensures
        match r {
            Some(t) => utc_text(micros as int, pattern@) == Some(t@),
            None => utc_text(micros as int, pattern@) is None,
        },
{
    match chrono::DateTime::from_timestamp_micros(micros) {
        Some(d) => Some(d.format(pattern).to_string()),
        None => None,
    }
}

/// How the console plugin prints events.
#[derive(Clone, Copy, Debug, PartialEq, Eq, Structural)]
pub enum OutputFormat {
    /// Time, level, service and message.
    Pretty,
    /// JSON format (one object per line).
    Json,
    /// `Level|service|message`.
    Compact,
}

/// The format a `format` setting names: `json`, `compact`, anything else pretty.
pub open spec fn format_named(s: Seq<char>) -> OutputFormat {
    if s == "json"@ {
        OutputFormat::Json
    } else if s == "compact"@ {
        OutputFormat::Compact
    } else {
        OutputFormat::Pretty
    }
}

/// The level a `level` setting names, falling back to `fallback` for an unknown name.
pub open spec fn level_setting(s: Seq<char>, fallback: LogLevel) -> LogLevel {
    match level_named(lowercase(s)) {
        Some(l) => l,
        None => fallback,
    }
}

/// Whether a plugin with threshold `min_level` handles `event`: log lines below the
/// threshold are dropped, every other event is handled.
pub open spec fn passes_level(event: ObservabilityEvent, min_level: LogLevel) -> bool {
    match event {
        ObservabilityEvent::Log { level, .. } => rank(level) >= rank(min_level),
        _ => true,
    }
}

/// Whether a plugin with threshold `min_level` handles `event`.
pub fn handles_event(event: &ObservabilityEvent, min_level: LogLevel) -> (r: bool)
    ensures
        r == passes_level(*event, min_level),
{
    match event {
        ObservabilityEvent::Log { level, .. } => !(*level < min_level),
        _ => true,
    }
}

/// A plugin's threshold is a floor: a log line at the threshold or above it is handled, one
/// below it is dropped, and every event that is not a log line is handled. Lowering the
/// threshold never drops a line that was handled.
pub proof fn lemma_threshold_is_a_floor(event: ObservabilityEvent, min_level: LogLevel, lower: LogLevel)
    ensures
        event matches ObservabilityEvent::Log { level, .. } ==> (passes_level(event, min_level) <==> rank(level) >= rank(min_level)),
        event matches ObservabilityEvent::Log { level, .. } && level == min_level ==> passes_level(event, min_level),
        !(event is Log) ==> passes_level(event, min_level),
        rank(lower) <= rank(min_level) && passes_level(event, min_level) ==> passes_level(event, lower),
{
}

/// Prints events to the console.
#[derive(Clone, Copy, Debug)]
pub struct StdoutObsPlugin {
    pub format: OutputFormat,
    pub min_level: LogLevel,
    pub colors: bool,
}

/// The level column of a pretty log line, five characters wide, in ANSI colours or plain.
pub open spec fn level_column(l: LogLevel, colors: bool) -> Seq<char> {
    if colors {
        match l {
            LogLevel::Trace => "\x1b[90mTRACE\x1b[0m"@,
            LogLevel::Debug => "\x1b[36mDEBUG\x1b[0m"@,
            LogLevel::Info => "\x1b[32mINFO\x1b[0m "@,
            LogLevel::Notice => "\x1b[34mNOTCE\x1b[0m"@,
            LogLevel::Warn => "\x1b[33mWARN\x1b[0m "@,
            LogLevel::Error => "\x1b[31mERROR\x1b[0m"@,
            LogLevel::Fatal => "\x1b[35mFATAL\x1b[0m"@,
        }
    } else {
        match l {
            LogLevel::Trace => "TRACE"@,
            LogLevel::Debug => "DEBUG"@,
            LogLevel::Info => "INFO "@,
            LogLevel::Notice => "NOTCE"@,
            LogLevel::Warn => "WARN "@,
            LogLevel::Error => "ERROR"@,
            LogLevel::Fatal => "FATAL"@,
        }
    }
}

/// The status column of a pretty health line, in ANSI colours or plain.
pub open spec fn status_column(s: HealthStatus, colors: bool) -> Seq<char> {
    if colors {
        match s {
            HealthStatus::Healthy => "\x1b[32mHEALTHY\x1b[0m"@,
            HealthStatus::Unhealthy => "\x1b[31mUNHEALTHY\x1b[0m"@,
            HealthStatus::Unknown => "\x1b[33mUNKNOWN\x1b[0m"@,
        }
    } else {
        match s {
            HealthStatus::Healthy => "HEALTHY"@,
            HealthStatus::Unhealthy => "UNHEALTHY"@,
            HealthStatus::Unknown => "UNKNOWN"@,
        }
    }
}

/// The name of a lifecycle event as its debug form writes it.
pub open spec fn event_type_name(e: ServiceEventType) -> Seq<char> {
    match e {
        ServiceEventType::Starting => "Starting"@,
        ServiceEventType::Started => "Started"@,
        ServiceEventType::Stopping => "Stopping"@,
        ServiceEventType::Stopped => "Stopped"@,
        ServiceEventType::Crashed => "Crashed"@,
        ServiceEventType::Restarting => "Restarting"@,
        ServiceEventType::HealthChanged => "HealthChanged"@,
        ServiceEventType::BuildStarted => "BuildStarted"@,
        ServiceEventType::BuildCompleted => "BuildCompleted"@,
        ServiceEventType::BuildFailed => "BuildFailed"@,
    }
}

/// The name of a level as its debug form writes it.
pub open spec fn level_debug_name(l: LogLevel) -> Seq<char> {
    match l {
        LogLevel::Trace => "Trace"@,
        LogLevel::Debug => "Debug"@,
        LogLevel::Info => "Info"@,
        LogLevel::Notice => "Notice"@,
        LogLevel::Warn => "Warn"@,
        LogLevel::Error => "Error"@,
        LogLevel::Fatal => "Fatal"@,
    }
}

/// The pretty line of an event: `[time] LEVEL [service] message` for a log line,
/// `[time] SERVICE [service] Event` for a lifecycle event, `[time] HEALTH [service] STATUS`
/// for a health check. `None` for a metric, whose line carries the debug text of its
/// (possibly fractional) value and is made by `metric_line`; `None` for the other kinds,
/// which are printed in their debug form, and where chrono has no date for the event's
/// time.
pub open spec fn pretty_text(event: ObservabilityEvent, colors: bool) -> Option<Seq<char>> {
    match event {
        ObservabilityEvent::Log { timestamp, service_fqn, level, message, .. } => match utc_text(
            timestamp as int,
            pretty_time_pattern(),
        ) {
            Some(t) => Some("["@ + t + "] "@ + level_column(level, colors) + " ["@ + service_fqn@
                + "] "@ + message@),
            None => None,
        },
        ObservabilityEvent::ServiceEvent { timestamp, service_fqn, event, .. } => match utc_text(
            timestamp as int,
            pretty_time_pattern(),
        ) {
            Some(t) => Some("["@ + t + "] SERVICE ["@ + service_fqn@ + "] "@ + event_type_name(
                event,
            )),
            None => None,
        },
        ObservabilityEvent::HealthCheck { timestamp, service_fqn, status, .. } => match utc_text(
            timestamp as int,
            pretty_time_pattern(),
        ) {
            Some(t) => Some("["@ + t + "] HEALTH ["@ + service_fqn@ + "] "@ + status_column(
                status,
                colors,
            )),
            None => None,
        },
        _ => None,
    }
}

/// The pretty line of a metric, `[time] METRIC [service] name: value`, given the text of
/// its value; `None` for another event, and where chrono has no date for the event's time.
pub open spec fn metric_text(event: ObservabilityEvent, value_text: Seq<char>) -> Option<Seq<char>> {
    match event {
        ObservabilityEvent::Metric { timestamp, service_fqn, name, .. } => match utc_text(
            timestamp as int,
            pretty_time_pattern(),
        ) {
            Some(t) => Some("["@ + t + "] METRIC ["@ + service_fqn@ + "] "@ + name@ + ": "@ + value_text),
            None => None,
        },
        _ => None,
    }
}

/// The compact line of an event: `Level|service|message` for a log line; `None` for the
/// other kinds, which are printed in their debug form.
pub open spec fn compact_text(event: ObservabilityEvent) -> Option<Seq<char>> {
    match event {
        ObservabilityEvent::Log { service_fqn, level, message, .. } => Some(level_debug_name(level)
            + "|"@ + service_fqn@ + "|"@ + message@),
        _ => None,
    }
}

fn level_column_of(l: LogLevel, colors: bool) -> (r: &'static str)
    ensures
        r@ == level_column(l, colors),
{
    if colors {
        match l {
            LogLevel::Trace => "\x1b[90mTRACE\x1b[0m",
            LogLevel::Debug => "\x1b[36mDEBUG\x1b[0m",
            LogLevel::Info => "\x1b[32mINFO\x1b[0m ",
            LogLevel::Notice => "\x1b[34mNOTCE\x1b[0m",
            LogLevel::Warn => "\x1b[33mWARN\x1b[0m ",
            LogLevel::Error => "\x1b[31mERROR\x1b[0m",
            LogLevel::Fatal => "\x1b[35mFATAL\x1b[0m",
        }
    } else {
        match l {
            LogLevel::Trace => "TRACE",
            LogLevel::Debug => "DEBUG",
            LogLevel::Info => "INFO ",
            LogLevel::Notice => "NOTCE",
            LogLevel::Warn => "WARN ",
            LogLevel::Error => "ERROR",
            LogLevel::Fatal => "FATAL",
        }
    }
}

fn status_column_of(s: HealthStatus, colors: bool) -> (r: &'static str)
    ensures
        r@ == status_column(s, colors),
{
    if colors {
        match s {
            HealthStatus::Healthy => "\x1b[32mHEALTHY\x1b[0m",
            HealthStatus::Unhealthy => "\x1b[31mUNHEALTHY\x1b[0m",
            HealthStatus::Unknown => "\x1b[33mUNKNOWN\x1b[0m",
        }
    } else {
        match s {
            HealthStatus::Healthy => "HEALTHY",
            HealthStatus::Unhealthy => "UNHEALTHY",
            HealthStatus::Unknown => "UNKNOWN",
        }
    }
}

/// The name of a lifecycle event as its debug form writes it.
pub fn event_type_debug_name(e: ServiceEventType) -> (r: &'static str)
    ensures
        r@ == event_type_name(e),
{
    match e {
        ServiceEventType::Starting => "Starting",
        ServiceEventType::Started => "Started",
        ServiceEventType::Stopping => "Stopping",
        ServiceEventType::Stopped => "Stopped",
        ServiceEventType::Crashed => "Crashed",
        ServiceEventType::Restarting => "Restarting",
        ServiceEventType::HealthChanged => "HealthChanged",
        ServiceEventType::BuildStarted => "BuildStarted",
        ServiceEventType::BuildCompleted => "BuildCompleted",
        ServiceEventType::BuildFailed => "BuildFailed",
    }
}

/// The name of a level as its debug form writes it.
pub fn level_debug_text(l: LogLevel) -> (r: &'static str)
    ensures
        r@ == level_debug_name(l),
{
    match l {
        LogLevel::Trace => "Trace",
        LogLevel::Debug => "Debug",
        LogLevel::Info => "Info",
        LogLevel::Notice => "Notice",
        LogLevel::Warn => "Warn",
        LogLevel::Error => "Error",
        LogLevel::Fatal => "Fatal",
    }
}

impl Default for StdoutObsPlugin {
    fn default() -> (r: Self)
        ensures
            r.format == OutputFormat::Pretty,
            r.min_level == LogLevel::Info,
            r.colors,
    {
        StdoutObsPlugin::new()
    }
}

impl StdoutObsPlugin {
    /// Pretty lines in colour, from `info` up.
    pub fn new() -> (r: Self)
        ensures
            r.format == OutputFormat::Pretty,
            r.min_level == LogLevel::Info,
            r.colors,
    {
        StdoutObsPlugin { format: OutputFormat::Pretty, min_level: LogLevel::Info, colors: true }
    }

    /// The plugin's name.
    pub fn name(&self) -> (r: &'static str)
        ensures
            r@ == "stdout"@,
    {
        "stdout"
    }

    /// Reads the settings `format` (`json`, `compact`, otherwise pretty), `level` (an
    /// unknown name means `info`) and `colors`; a setting that is absent, or not of its
    /// kind, leaves its value as it was.
    pub fn init(&mut self, settings: &Settings)
        ensures
            final(self).format == (match text_setting(*settings, "format"@) {
                Some(f) => format_named(f),
                None => old(self).format,
            }),
            final(self).min_level == (match text_setting(*settings, "level"@) {
                Some(l) => level_setting(l, LogLevel::Info),
                None => old(self).min_level,
            }),
            final(self).colors == (match bool_setting(*settings, "colors"@) {
                Some(c) => c,
                None => old(self).colors,
            }),
    {
        if let Some(format) = settings.get_str("format") {
            let f = format.as_str();
            proof {
                reveal_strlit("json");
                reveal_strlit("compact");
            }
            self.format = if str_eq(f, "json") {
                OutputFormat::Json
            } else if str_eq(f, "compact") {
                OutputFormat::Compact
            } else {
                OutputFormat::Pretty
            };
        }
        if let Some(level) = settings.get_str("level") {
            self.min_level = match LogLevel::parse(level.as_str()) {
                Ok(l) => l,
                Err(_) => LogLevel::Info,
            };
        }
        if let Some(colors) = settings.get_bool("colors") {
            self.colors = colors;
        }
    }

    /// Whether the plugin prints `event`: log lines below its level are dropped.
    pub fn handles(&self, event: &ObservabilityEvent) -> (r: bool)
        ensures
            r == passes_level(*event, self.min_level),
    {
        handles_event(event, self.min_level)
    }

    /// The pretty line of `event` (see `pretty_text`); `None` where the event is printed
    /// in its debug form.
    pub fn format_pretty(&self, event: &ObservabilityEvent) -> (r: Option<String>)
        ensures
            match r {
                Some(t) => pretty_text(*event, self.colors) == Some(t@),
                None => pretty_text(*event, self.colors) is None,
            },
    {
        proof {
            reveal_strlit("%Y-%m-%dT%H:%M:%S%.3f");
        }
        match event {
            ObservabilityEvent::Log { timestamp, service_fqn, level, message, .. } => {
                match format_utc(*timestamp, "%Y-%m-%dT%H:%M:%S%.3f") {
                    Some(t) => {
                        let mut s = "[".to_owned();
                        s.append(t.as_str());
                        s.append("] ");
                        s.append(level_column_of(*level, self.colors));
                        s.append(" [");
                        s.append(service_fqn.as_str());
                        s.append("] ");
                        s.append(message.as_str());
                        Some(s)
                    },
                    None => None,
                }
            },
            ObservabilityEvent::ServiceEvent { timestamp, service_fqn, event, .. } => {
                match format_utc(*timestamp, "%Y-%m-%dT%H:%M:%S%.3f") {
                    Some(t) => {
                        let mut s = "[".to_owned();
                        s.append(t.as_str());
                        s.append("] SERVICE [");
                        s.append(service_fqn.as_str());
                        s.append("] ");
                        s.append(event_type_debug_name(*event));
                        Some(s)
                    },
                    None => None,
                }
            },
            ObservabilityEvent::HealthCheck { timestamp, service_fqn, status, .. } => {
                match format_utc(*timestamp, "%Y-%m-%dT%H:%M:%S%.3f") {
                    Some(t) => {
                        let mut s = "[".to_owned();
                        s.append(t.as_str());
                        s.append("] HEALTH [");
                        s.append(service_fqn.as_str());
                        s.append("] ");
                        s.append(status_column_of(*status, self.colors));
                        Some(s)
                    },
                    None => None,
                }
            },
            _ => None,
        }
    }

    /// The compact line of `event` (see `compact_text`); `None` where the event is printed
    /// in its debug form.
    pub fn format_compact(&self, event: &ObservabilityEvent) -> (r: Option<String>)
        ensures
            match r {
                Some(t) => compact_text(*event) == Some(t@),
                None => compact_text(*event) is None,
            },
    {
        match event {
            ObservabilityEvent::Log { service_fqn, level, message, .. } => {
                let mut s = level_debug_text(*level).to_owned();
                s.append("|");
                s.append(service_fqn.as_str());
                s.append("|");
                s.append(message.as_str());
                Some(s)
            },
            _ => None,
        }
    }

    /// The pretty line of a metric event (see `metric_text`), given the debug text of its
    /// value; `None` for another event.
    pub fn metric_line(&self, event: &ObservabilityEvent, value_text: &str) -> (r: Option<String>)
        ensures
            match r {
                Some(t) => metric_text(*event, value_text@) == Some(t@),
                None => metric_text(*event, value_text@) is None,
            },
    {
        proof {
            reveal_strlit("%Y-%m-%dT%H:%M:%S%.3f");
        }
        match event {
            ObservabilityEvent::Metric { timestamp, service_fqn, name, .. } => {
                match format_utc(*timestamp, "%Y-%m-%dT%H:%M:%S%.3f") {
                    Some(t) => {
                        let mut s = "[".to_owned();
                        s.append(t.as_str());
                        s.append("] METRIC [");
                        s.append(service_fqn.as_str());
                        s.append("] ");
                        s.append(name.as_str());
                        s.append(": ");
                        s.append(value_text);
                        Some(s)
                    },
                    None => None,
                }
            },
            _ => None,
        }
    }

    /// The line the plugin prints for `event` in its own format; `None` where the line is
    /// the event's JSON (in the JSON format) or its debug form.
    pub fn format_event(&self, event: &ObservabilityEvent) -> (r: Option<String>)
        ensures
            match r {
                Some(t) => match self.format {
                    OutputFormat::Json => false,
                    OutputFormat::Pretty => pretty_text(*event, self.colors) == Some(t@),
                    OutputFormat::Compact => compact_text(*event) == Some(t@),
                },
                None => match self.format {
                    OutputFormat::Json => true,
                    OutputFormat::Pretty => pretty_text(*event, self.colors) is None,
                    OutputFormat::Compact => compact_text(*event) is None,
                },
            },
    {
        match self.format {
            OutputFormat::Json => None,
            OutputFormat::Pretty => self.format_pretty(event),
            OutputFormat::Compact => self.format_compact(event),
        }
    }
}

/// The key under which the defaults hold a plugin's settings: `hive.obs.<name>`.
pub fn settings_key(plugin_name: &str) -> (r: String)
    ensures
        r@ == "hive.obs."@ + plugin_name@,
{
    let mut k = "hive.obs.".to_owned();
    k.append(plugin_name);
    k
}

/// The size at which a log file is rotated unless configured: 10 MiB.
pub const DEFAULT_MAX_LOG_SIZE: u64 = 10485760;

/// Writes events to one log file per service, rotating a file that grew too large.
#[derive(Clone, Debug)]
pub struct FileObsPlugin {
    /// The directory of the log files.
    pub dir: String,
    pub rotate: bool,
    /// Maximum file size before rotation, in bytes.
    pub max_size: u64,
    pub min_level: LogLevel,
}

/// Whether the `max_size` setting, where it is a size, gives a byte count that fits in
/// 64 bits.
pub open spec fn max_size_fits(settings: Settings) -> bool {
    match text_setting(settings, "max_size"@) {
        Some(s) => size_bytes(s) matches Some(b) ==> b <= u64::MAX,
        None => true,
    }
}

impl FileObsPlugin {
    /// Rotating files of at most 10 MiB in `dir`, from `debug` up.
    pub fn new(dir: String) -> (r: Self)
        ensures
            r.dir@ == dir@,
            r.rotate,
            r.max_size == DEFAULT_MAX_LOG_SIZE,
            r.min_level == LogLevel::Debug,
    {
        FileObsPlugin { dir, rotate: true, max_size: DEFAULT_MAX_LOG_SIZE, min_level: LogLevel::Debug }
    }

    /// The plugin's name.
    pub fn name(&self) -> (r: &'static str)
        ensures
            r@ == "file"@,
    {
        "file"
    }

    /// Reads the settings `dir`, `rotate`, `max_size` (a size such as `5MB`; one that is
    /// not a size means 10 MiB) and `level` (an unknown name means `debug`); a setting that
    /// is absent, or not of its kind, leaves its value as it was.
    pub fn init(&mut self, settings: &Settings)
        requires
            max_size_fits(*settings),
        ensures
            final(self).dir@ == (match text_setting(*settings, "dir"@) {
                Some(d) => d,
                None => old(self).dir@,
            }),
            final(self).rotate == (match bool_setting(*settings, "rotate"@) {
                Some(b) => b,
                None => old(self).rotate,
            }),
            final(self).max_size == (match text_setting(*settings, "max_size"@) {
                Some(s) => match size_bytes(s) {
                    Some(b) => b as u64,
                    None => DEFAULT_MAX_LOG_SIZE,
                },
                None => old(self).max_size,
            }),
            final(self).min_level == (match text_setting(*settings, "level"@) {
                Some(l) => level_setting(l, LogLevel::Debug),
                None => old(self).min_level,
            }),
    {
        if let Some(dir) = settings.get_str("dir") {
            self.dir = dir;
        }
        if let Some(rotate) = settings.get_bool("rotate") {
            self.rotate = rotate;
        }
        if let Some(max_size) = settings.get_str("max_size") {
            self.max_size = match parse_size(max_size.as_str()) {
                Some(b) => b,
                None => DEFAULT_MAX_LOG_SIZE,
            };
        }
        if let Some(level) = settings.get_str("level") {
            self.min_level = match LogLevel::parse(level.as_str()) {
                Ok(l) => l,
                Err(_) => LogLevel::Debug,
            };
        }
    }

    /// Whether the plugin writes `event`: log lines below its level are dropped.
    pub fn handles(&self, event: &ObservabilityEvent) -> (r: bool)
        ensures
            r == passes_level(*event, self.min_level),
    {
        handles_event(event, self.min_level)
    }

    /// Whether a file that has grown to `len` bytes is rotated: rotation is on and the file
    /// is larger than the maximum size.
    pub fn needs_rotation(&self, len: u64) -> (r: bool)
        ensures
            r == (self.rotate && len > self.max_size),
    {
        self.rotate && len > self.max_size
    }
}

/// The name of a service's log file: `<service>.log`.
pub fn log_file_name(service: &str) -> (r: String)
    ensures
        r@ == service@ + ".log"@,
{
    let mut n = service.to_owned();
    n.append(".log");
    n
}

/// The name a log file is rotated to at the instant `micros`:
/// `<service>.<YYYYmmddHHMMSS>.log`; `None` where chrono has no date for the instant.
pub fn rotated_file_name(service: &str, micros: i64) -> (r: Option<String>)
    ensures
        match r {
            Some(n) => utc_text(micros as int, rotation_time_pattern()) matches Some(t) && n@
                == service@ + "."@ + t + ".log"@,
            None => utc_text(micros as int, rotation_time_pattern()) is None,
        },
{
    proof {
        reveal_strlit("%Y%m%d%H%M%S");
    }
    match format_utc(micros, "%Y%m%d%H%M%S") {
        Some(t) => {
            let mut n = service.to_owned();
            n.append(".");
            n.append(t.as_str());
            n.append(".log");
            Some(n)
        },
        None => None,
    }
}

} // verus!
