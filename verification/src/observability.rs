//! Observability events (logs, metrics, spans, health checks, lifecycle events, proxy
//! requests, resource use), subscriptions that select among them, and a buffer of recent
//! log lines per service.
//!
//! Times are microseconds since the Unix epoch; identifiers of traces and spans are
//! 128-bit numbers.

use vstd::prelude::*;
use crate::assoc::{assoc_find, assoc_keys, assoc_view, lemma_assoc_has_key, lemma_assoc_push, lemma_assoc_replace};
use crate::clock::now_micros;
use crate::log_level::{level_rank, rank, LogLevel};
use crate::text::{chars_contain, chars_of, has_prefix, has_suffix, str_eq, str_ends_with, str_starts_with, string_of};

verus! {

/// Which output stream a log line came from.
#[derive(Clone, Copy, Debug, PartialEq, Eq, Structural)]
pub enum LogStream {
    Stdout,
    Stderr,
}

/// The outcome of a span.
#[derive(Clone, Copy, Debug, PartialEq, Eq, Structural)]
pub enum SpanStatus {
    /// The span completed without error.
    Success,
    Error,
}

/// The outcome of a health check.
#[derive(Clone, Copy, Debug, PartialEq, Eq, Structural)]
pub enum HealthStatus {
    Healthy,
    Unhealthy,
    Unknown,
}

/// A lifecycle event of a service.
#[derive(Clone, Copy, Debug, PartialEq, Eq, Structural)]
pub enum ServiceEventType {
    Starting,
    Started,
    Stopping,
    Stopped,
    Crashed,
    Restarting,
    HealthChanged,
    BuildStarted,
    BuildCompleted,
    BuildFailed,
}

impl ServiceEventType {
    /// The snake-case name of the event.
    pub fn as_str(&self) -> (r: &'static str)
        ensures
            r@ == (match *self {
                ServiceEventType::Starting => "starting"@,
                ServiceEventType::Started => "started"@,
                ServiceEventType::Stopping => "stopping"@,
                ServiceEventType::Stopped => "stopped"@,
                ServiceEventType::Crashed => "crashed"@,
                ServiceEventType::Restarting => "restarting"@,
                ServiceEventType::HealthChanged => "health_changed"@,
                ServiceEventType::BuildStarted => "build_started"@,
                ServiceEventType::BuildCompleted => "build_completed"@,
                ServiceEventType::BuildFailed => "build_failed"@,
            }),
    {
        match self {
            ServiceEventType::Starting => "starting",
            ServiceEventType::Started => "started",
            ServiceEventType::Stopping => "stopping",
            ServiceEventType::Stopped => "stopped",
            ServiceEventType::Crashed => "crashed",
            ServiceEventType::Restarting => "restarting",
            ServiceEventType::HealthChanged => "health_changed",
            ServiceEventType::BuildStarted => "build_started",
            ServiceEventType::BuildCompleted => "build_completed",
            ServiceEventType::BuildFailed => "build_failed",
        }
    }
}

/// A measured value. A fractional number is kept as the bits of its IEEE 754 double
/// (`f64::to_bits`), so the value travels unchanged.
#[derive(Debug)]
pub enum MetricValue {
    /// A current value, such as a CPU share.
    Gauge { bits: u64 },
    /// A monotonic counter, such as a number of requests.
    Counter(u64),
    /// A distribution: how many values, their sum, and per bucket its upper bound and
    /// count.
    Histogram { count: u64, sum_bits: u64, buckets: Vec<(u64, u64)> },
}

/// An observability event. The CPU share of resource metrics and free-form structured
/// fields are carried beside the event, not in it.
#[derive(Debug)]
pub enum ObservabilityEvent {
    /// A line a service wrote.
    Log { timestamp: i64, service_fqn: String, level: LogLevel, message: String, stream: LogStream },
    /// A measurement.
    Metric { timestamp: i64, service_fqn: String, name: String, value: MetricValue, labels: Vec<(String, String)> },
    /// A span of a distributed trace.
    Span {
        trace_id: u128,
        span_id: u128,
        parent_span_id: Option<u128>,
        service_fqn: String,
        operation: String,
        start: i64,
        duration_us: u64,
        status: SpanStatus,
    },
    /// The result of a health check.
    HealthCheck {
        timestamp: i64,
        service_fqn: String,
        check_type: String,
        status: HealthStatus,
        latency_ms: u32,
        error: Option<String>,
    },
    /// A lifecycle event.
    ServiceEvent { timestamp: i64, service_fqn: String, event: ServiceEventType },
    /// A request through the proxy.
    ProxyRequest {
        timestamp: i64,
        trace_id: u128,
        span_id: u128,
        service_fqn: String,
        method: String,
        path: String,
        status_code: u16,
        duration_us: u64,
        request_bytes: u64,
        response_bytes: u64,
        client_ip: Option<String>,
        user_agent: Option<String>,
        is_websocket: bool,
    },
    /// Resource use of a service process.
    ResourceMetrics {
        timestamp: i64,
        service_fqn: String,
        pid: u32,
        memory_rss_bytes: u64,
        memory_vms_bytes: u64,
        open_fds: u32,
        threads: u32,
        network_rx_bytes: u64,
        network_tx_bytes: u64,
    },
    /// An event a plugin defines.
    Custom { timestamp: i64, service_fqn: String, event_name: String },
}

/// The name of the kind of an event.
pub open spec fn event_kind(e: ObservabilityEvent) -> Seq<char> {
    match e {
        ObservabilityEvent::Log { .. } => "log"@,
        ObservabilityEvent::Metric { .. } => "metric"@,
        ObservabilityEvent::Span { .. } => "span"@,
        ObservabilityEvent::HealthCheck { .. } => "health_check"@,
        ObservabilityEvent::ServiceEvent { .. } => "service_event"@,
        ObservabilityEvent::ProxyRequest { .. } => "proxy_request"@,
        ObservabilityEvent::ResourceMetrics { .. } => "resource_metrics"@,
        ObservabilityEvent::Custom { .. } => "custom"@,
    }
}

/// The service an event is about.
pub open spec fn event_service(e: ObservabilityEvent) -> Seq<char> {
    match e {
        ObservabilityEvent::Log { service_fqn, .. } => service_fqn@,
        ObservabilityEvent::Metric { service_fqn, .. } => service_fqn@,
        ObservabilityEvent::Span { service_fqn, .. } => service_fqn@,
        ObservabilityEvent::HealthCheck { service_fqn, .. } => service_fqn@,
        ObservabilityEvent::ServiceEvent { service_fqn, .. } => service_fqn@,
        ObservabilityEvent::ProxyRequest { service_fqn, .. } => service_fqn@,
        ObservabilityEvent::ResourceMetrics { service_fqn, .. } => service_fqn@,
        ObservabilityEvent::Custom { service_fqn, .. } => service_fqn@,
    }
}

impl ObservabilityEvent {
    /// When the event happened (for a span, when it started).
    pub fn timestamp(&self) -> (r: i64)
        ensures
            r == (match *self {
                ObservabilityEvent::Log { timestamp, .. } => timestamp,
                ObservabilityEvent::Metric { timestamp, .. } => timestamp,
                ObservabilityEvent::Span { start, .. } => start,
                ObservabilityEvent::HealthCheck { timestamp, .. } => timestamp,
                ObservabilityEvent::ServiceEvent { timestamp, .. } => timestamp,
                ObservabilityEvent::ProxyRequest { timestamp, .. } => timestamp,
                ObservabilityEvent::ResourceMetrics { timestamp, .. } => timestamp,
                ObservabilityEvent::Custom { timestamp, .. } => timestamp,
            }),
    {
        match self {
            ObservabilityEvent::Log { timestamp, .. } => *timestamp,
            ObservabilityEvent::Metric { timestamp, .. } => *timestamp,
            ObservabilityEvent::Span { start, .. } => *start,
            ObservabilityEvent::HealthCheck { timestamp, .. } => *timestamp,
            ObservabilityEvent::ServiceEvent { timestamp, .. } => *timestamp,
            ObservabilityEvent::ProxyRequest { timestamp, .. } => *timestamp,
            ObservabilityEvent::ResourceMetrics { timestamp, .. } => *timestamp,
            ObservabilityEvent::Custom { timestamp, .. } => *timestamp,
        }
    }

    /// The service the event is about.
    pub fn service_fqn(&self) -> (r: &str)
        ensures
            r@ == event_service(*self),
    {
        match self {
            ObservabilityEvent::Log { service_fqn, .. } => service_fqn.as_str(),
            ObservabilityEvent::Metric { service_fqn, .. } => service_fqn.as_str(),
            ObservabilityEvent::Span { service_fqn, .. } => service_fqn.as_str(),
            ObservabilityEvent::HealthCheck { service_fqn, .. } => service_fqn.as_str(),
            ObservabilityEvent::ServiceEvent { service_fqn, .. } => service_fqn.as_str(),
            ObservabilityEvent::ProxyRequest { service_fqn, .. } => service_fqn.as_str(),
            ObservabilityEvent::ResourceMetrics { service_fqn, .. } => service_fqn.as_str(),
            ObservabilityEvent::Custom { service_fqn, .. } => service_fqn.as_str(),
        }
    }

    /// Whether the event is a log line.
    pub fn is_log(&self) -> (r: bool)
        ensures
            r == (*self is Log),
    {
        match self {
            ObservabilityEvent::Log { .. } => true,
            _ => false,
        }
    }

    /// A log line written now.
    pub fn log(service_fqn: &str, level: LogLevel, message: &str, stream: LogStream) -> (r: Self)
        ensures
            r matches ObservabilityEvent::Log { service_fqn: f, level: l, message: m, stream: s, .. } && f@
                == service_fqn@ && l == level && m@ == message@ && s == stream,
    {
        ObservabilityEvent::Log {
            timestamp: now_micros(),
            service_fqn: service_fqn.to_owned(),
            level,
            message: message.to_owned(),
            stream,
        }
    }

    /// A lifecycle event happening now.
    pub fn service_event(service_fqn: &str, event: ServiceEventType) -> (r: Self)
        ensures
            r matches ObservabilityEvent::ServiceEvent { service_fqn: f, event: ev, .. } && f@ == service_fqn@
                && ev == event,
    {
        ObservabilityEvent::ServiceEvent { timestamp: now_micros(), service_fqn: service_fqn.to_owned(), event }
    }

    /// A health-check result observed now.
    pub fn health_check(service_fqn: &str, check_type: &str, status: HealthStatus, latency_ms: u32, error: Option<String>) -> (r: Self)
        ensures
            r matches ObservabilityEvent::HealthCheck { service_fqn: f, check_type: c, status: s, latency_ms: l, error: e, .. }
                && f@ == service_fqn@ && c@ == check_type@ && s == status && l == latency_ms && e == error,
    {
        ObservabilityEvent::HealthCheck {
            timestamp: now_micros(),
            service_fqn: service_fqn.to_owned(),
            check_type: check_type.to_owned(),
            status,
            latency_ms,
            error,
        }
    }
}

/// The name of the kind of an event.
fn event_type_name(event: &ObservabilityEvent) -> (r: &'static str)
    ensures
        r@ == event_kind(*event),
{
    match event {
        ObservabilityEvent::Log { .. } => "log",
        ObservabilityEvent::Metric { .. } => "metric",
        ObservabilityEvent::Span { .. } => "span",
        ObservabilityEvent::HealthCheck { .. } => "health_check",
        ObservabilityEvent::ServiceEvent { .. } => "service_event",
        ObservabilityEvent::ProxyRequest { .. } => "proxy_request",
        ObservabilityEvent::ResourceMetrics { .. } => "resource_metrics",
        ObservabilityEvent::Custom { .. } => "custom",
    }
}

/// A log line, as kept and returned by the log buffer.
#[derive(Debug)]
pub struct LogLine {
    pub timestamp: i64,
    pub service_fqn: String,
    pub level: LogLevel,
    pub message: String,
    pub stream: LogStream,
}

/// A copy of a log line.
pub fn copy_line(l: &LogLine) -> (r: LogLine)
    ensures
        r == *l,
{
    LogLine {
        timestamp: l.timestamp,
        service_fqn: l.service_fqn.clone(),
        level: l.level,
        message: l.message.clone(),
        stream: l.stream,
    }
}

impl LogLine {
    /// The log line of a log event; other events have none.
    pub fn from_event(event: &ObservabilityEvent) -> (r: Option<LogLine>)
        ensures
            match *event {
                ObservabilityEvent::Log { timestamp, service_fqn, level, message, stream } => r == Some(
                    LogLine { timestamp, service_fqn, level, message, stream },
                ),
                _ => r is None,
            },
    {
        match event {
            ObservabilityEvent::Log { timestamp, service_fqn, level, message, stream } => Some(
                LogLine {
                    timestamp: *timestamp,
                    service_fqn: service_fqn.clone(),
                    level: *level,
                    message: message.clone(),
                    stream: *stream,
                },
            ),
            _ => None,
        }
    }
}

// ---------------------------------------------------------------------------
// Subscriptions
// ---------------------------------------------------------------------------

/// `s` with every trailing copy of `p` removed (what `trim_end_matches` gives).
pub open spec fn trim_suffix(s: Seq<char>, p: Seq<char>) -> Seq<char>
    decreases s.len(),
{
    if p.len() > 0 && has_suffix(s, p) {
        trim_suffix(s.take(s.len() - p.len()), p)
    } else {
        s
    }
}

/// Whether a service pattern of a subscription selects the service `fqn`:
/// `source:*` selects the services of a source, `*` all services, a pattern with `:` the
/// one service of that full name, and a bare name the service of that name in any source.
pub open spec fn service_pattern_matches(pattern: Seq<char>, fqn: Seq<char>) -> bool {
    if has_suffix(pattern, ":*"@) {
        has_prefix(fqn, trim_suffix(pattern, ":*"@) + ":"@)
    } else if pattern == "*"@ {
        true
    } else if pattern.contains(':') {
        pattern == fqn
    } else {
        has_suffix(fqn, ":"@ + pattern) || fqn == pattern
    }
}

/// What a subscription selects.
#[derive(Debug)]
pub struct EventSubscription {
    /// Kinds of events to receive (none: all kinds).
    pub event_types: Vec<String>,
    /// Service patterns (none: all services).
    pub services: Vec<String>,
    /// Least severity of log lines to receive.
    pub min_log_level: Option<LogLevel>,
}

/// Whether the subscription with these settings selects `e`.
pub open spec fn subscription_selects(
    event_types: Seq<Seq<char>>,
    services: Seq<Seq<char>>,
    min_log_level: Option<LogLevel>,
    e: ObservabilityEvent,
) -> bool {
    &&& (event_types.len() == 0 || event_types.contains(event_kind(e)))
    &&& (services.len() == 0 || exists|i: int| 0 <= i < services.len() && service_pattern_matches(#[trigger] services[i], event_service(e)))
    &&& match (min_log_level, e) {
        (Some(m), ObservabilityEvent::Log { level, .. }) => rank(level) >= rank(m),
        _ => true,
    }
}

/// `s` with trailing copies of `p` removed.
pub(crate) fn trim_suffix_chars(s: &[char], p: &[char]) -> (r: Vec<char>)
    ensures
        r@ == trim_suffix(s@, p@),
{
    let mut end: usize = s.len();
    assert(s@.take(end as int) =~= s@);
    while p.len() > 0 && p.len() <= end && crate::text::chars_occur_at(s, end - p.len(), p)
        invariant
            end <= s@.len(),
            trim_suffix(s@, p@) == trim_suffix(s@.take(end as int), p@),
        decreases end,
    {
        proof {
            let t = s@.take(end as int);
            assert(has_suffix(t, p@)) by {
                assert(t.skip(t.len() - p@.len()) =~= s@.subrange(end - p@.len(), end as int));
            }
            assert(t.take(t.len() - p@.len()) =~= s@.take(end - p@.len()));
        }
        end = end - p.len();
    }
    proof {
        let t = s@.take(end as int);
        if p@.len() > 0 && has_suffix(t, p@) {
            assert(t.skip(t.len() - p@.len()) =~= s@.subrange(end - p@.len(), end as int));
        }
    }
    crate::text::slice_chars(s, 0, end)
}

/// Whether a service pattern selects the service `fqn`.
fn pattern_matches(pattern: &str, fqn: &str) -> (r: bool)
    ensures
        r == service_pattern_matches(pattern@, fqn@),
{
    if str_ends_with(pattern, ":*") {
        let pc = chars_of(pattern);
        let suffix = chars_of(":*");
        let mut source = trim_suffix_chars(&pc, &suffix);
        let ghost t = source@;
        source.push(':');
        proof {
            reveal_strlit(":");
            assert(source@ =~= t + ":"@);
        }
        let f = chars_of(fqn);
        crate::text::chars_start_with(&f, &source)
    } else if str_eq(pattern, "*") {
        true
    } else if chars_contain(&chars_of(pattern), ':') {
        str_eq(pattern, fqn)
    } else {
        let mut suffix = ":".to_owned();
        suffix.append(pattern);
        str_ends_with(fqn, suffix.as_str()) || str_eq(fqn, pattern)
    }
}

impl Default for EventSubscription {
    /// Selects everything.
    fn default() -> (r: Self)
        ensures
            r.event_types@.len() == 0,
            r.services@.len() == 0,
            r.min_log_level is None,
    {
        EventSubscription { event_types: Vec::new(), services: Vec::new(), min_log_level: None }
    }
}

impl EventSubscription {
    /// Whether this subscription selects `e`.
    pub open spec fn selects(&self, e: ObservabilityEvent) -> bool {
        subscription_selects(crate::text::texts(self.event_types@), crate::text::texts(self.services@), self.min_log_level, e)
    }

    /// Every event.
    pub fn all() -> (r: Self)
        ensures
            r.event_types@.len() == 0,
            r.services@.len() == 0,
            r.min_log_level is None,
            forall|e: ObservabilityEvent| r.selects(e),
    {
        EventSubscription::default()
    }

    /// Every log line.
    pub fn logs() -> (r: Self)
        ensures
            crate::text::texts(r.event_types@) == seq!["log"@],
            r.services@.len() == 0,
            r.min_log_level is None,
    {
        let r = EventSubscription { event_types: vec!["log".to_owned()], services: Vec::new(), min_log_level: None };
        assert(crate::text::texts(r.event_types@) =~= seq!["log"@]);
        r
    }

    /// Every event of the services selected by one pattern.
    pub fn for_service(service_fqn: &str) -> (r: Self)
        ensures
            r.event_types@.len() == 0,
            crate::text::texts(r.services@) == seq![service_fqn@],
            r.min_log_level is None,
    {
        let r = EventSubscription { event_types: Vec::new(), services: vec![service_fqn.to_owned()], min_log_level: None };
        assert(crate::text::texts(r.services@) =~= seq![service_fqn@]);
        r
    }

    /// Whether this subscription selects `event`: its kind is among the kinds (if any are
    /// given), a pattern selects its service (if any are given), and a log line is at least
    /// as severe as the least severity (if one is given).
    pub fn matches(&self, event: &ObservabilityEvent) -> (r: bool)
        ensures
            r == self.selects(*event),
    {
        if self.event_types.len() > 0 {
            let kind = event_type_name(event);
            let mut i: usize = 0;
            let mut found = false;
            while i < self.event_types.len()
                invariant
                    i <= self.event_types@.len(),
                    kind@ == event_kind(*event),
                    found <==> exists|j: int| 0 <= j < i && (#[trigger] self.event_types@[j])@ == kind@,
                decreases self.event_types.len() - i,
            {
                if str_eq(self.event_types[i].as_str(), kind) {
                    found = true;
                }
                i = i + 1;
            }
            proof {
                let ts = crate::text::texts(self.event_types@);
                if found {
                    let j = choose|j: int| 0 <= j < self.event_types@.len() && (#[trigger] self.event_types@[j])@ == kind@;
                    assert(ts[j] == kind@);
                }
                if ts.contains(kind@) {
                    let j = choose|j: int| 0 <= j < ts.len() && ts[j] == kind@;
                    assert(self.event_types@[j]@ == kind@);
                }
            }
            if !found {
                return false;
            }
        }
        if self.services.len() > 0 {
            let fqn = event.service_fqn();
            let mut i: usize = 0;
            let mut any = false;
            while i < self.services.len()
                invariant
                    i <= self.services@.len(),
                    fqn@ == event_service(*event),
                    any <==> exists|j: int| 0 <= j < i && service_pattern_matches(#[trigger] crate::text::texts(self.services@)[j], fqn@),
                decreases self.services.len() - i,
            {
                if pattern_matches(self.services[i].as_str(), fqn) {
                    assert(crate::text::texts(self.services@)[i as int] == self.services@[i as int]@);
                    any = true;
                }
                i = i + 1;
            }
            if !any {
                return false;
            }
        }
        match self.min_log_level {
            Some(m) => match event {
                ObservabilityEvent::Log { level, .. } => {
                    if level_rank(*level) < level_rank(m) {
                        return false;
                    }
                },
                _ => {},
            },
            None => {},
        }
        true
    }
}

// ---------------------------------------------------------------------------
// The log buffer
// ---------------------------------------------------------------------------

/// The last `n` entries of `s` (all of them when there are fewer).
pub open spec fn last_n<A>(s: Seq<A>, n: nat) -> Seq<A> {
    if s.len() > n {
        s.skip(s.len() - n)
    } else {
        s
    }
}

/// The entries of `s` that a limit keeps: the last `limit` ones, or all without a limit.
pub open spec fn limited<A>(s: Seq<A>, limit: Option<usize>) -> Seq<A> {
    match limit {
        Some(l) => last_n(s, l as nat),
        None => s,
    }
}

/// Each line is no later than the next.
pub open spec fn sorted_by_time(s: Seq<LogLine>) -> bool {
    forall|i: int, j: int| 0 <= i <= j < s.len() ==> (#[trigger] s[i]).timestamp <= (#[trigger] s[j]).timestamp
}

/// Whether the service `fqn` is selected by a buffer query: `source:*` selects the
/// services of a source, `*` all, anything else the service of exactly that name; no
/// pattern selects all.
pub open spec fn query_selects(pattern: Option<Seq<char>>, fqn: Seq<char>) -> bool {
    match pattern {
        None => true,
        Some(p) => if has_suffix(p, ":*"@) {
            has_prefix(fqn, trim_suffix(p, ":*"@) + ":"@)
        } else if p == "*"@ {
            true
        } else {
            fqn == p
        },
    }
}

/// The lines of the services a query selects, service after service.
pub open spec fn collected(logs: Seq<(String, Vec<LogLine>)>, pattern: Option<Seq<char>>) -> Seq<LogLine>
    decreases logs.len(),
{
    if logs.len() == 0 {
        Seq::empty()
    } else {
        collected(logs.drop_last(), pattern) + if query_selects(pattern, logs.last().0@) {
            logs.last().1@
        } else {
            Seq::empty()
        }
    }
}

/// Recent log lines of each service, at most `max_lines` per service.
#[derive(Debug)]
pub struct LogBuffer {
    pub max_lines: usize,
    /// The lines of each service, oldest first.
    pub logs: Vec<(String, Vec<LogLine>)>,
}

fn copy_lines(v: &[LogLine], from: usize) -> (r: Vec<LogLine>)
    requires
        from <= v@.len(),
    ensures
        r@ == v@.skip(from as int),
{
    let mut r: Vec<LogLine> = Vec::new();
    let mut i = from;
    while i < v.len()
        invariant
            from <= i <= v@.len(),
            r@ == v@.subrange(from as int, i as int),
        decreases v.len() - i,
    {
        r.push(copy_line(&v[i]));
        assert(r@ =~= v@.subrange(from as int, i + 1));
        i = i + 1;
    }
    assert(v@.subrange(from as int, v@.len() as int) =~= v@.skip(from as int));
    r
}

/// Whether a buffer query selects the service `fqn`.
fn query_matches(pattern: Option<&str>, fqn: &str) -> (r: bool)
    ensures
        r == query_selects(
            match pattern {
                Some(p) => Some(p@),
                None => None,
            },
            fqn@,
        ),
{
    match pattern {
        None => true,
        Some(p) => {
            if str_ends_with(p, ":*") {
                let pc = chars_of(p);
                let suffix = chars_of(":*");
                let mut source = trim_suffix_chars(&pc, &suffix);
                let ghost t = source@;
                source.push(':');
                proof {
                    reveal_strlit(":");
                    assert(source@ =~= t + ":"@);
                }
                crate::text::chars_start_with(&chars_of(fqn), &source)
            } else if str_eq(p, "*") {
                true
            } else {
                str_eq(fqn, p)
            }
        },
    }
}

/// The lines ordered by time; lines of the same time keep their order.
fn sort_by_time(v: &Vec<LogLine>) -> (r: Vec<LogLine>)
    ensures
        sorted_by_time(r@),
        r@.to_multiset() == v@.to_multiset(),
{
    broadcast use vstd::seq_lib::to_multiset_insert, vstd::seq_lib::to_multiset_build;

    let mut out: Vec<LogLine> = Vec::new();
    let mut i: usize = 0;
    assert(v@.take(0) =~= Seq::<LogLine>::empty());
    while i < v.len()
        invariant
            i <= v@.len(),
            sorted_by_time(out@),
            out@.to_multiset() == v@.take(i as int).to_multiset(),
        decreases v.len() - i,
    {
        let x = copy_line(&v[i]);
        let mut p: usize = 0;
        while p < out.len() && out[p].timestamp <= x.timestamp
            invariant
                p <= out@.len(),
                forall|q: int| 0 <= q < p ==> (#[trigger] out@[q]).timestamp <= x.timestamp,
            decreases out.len() - p,
        {
            p = p + 1;
        }
        let ghost old_out = out@;
        out.insert(p, x);
        proof {
            assert(v@.take(i + 1) =~= v@.take(i as int).push(v@[i as int]));
            assert(out@ == old_out.insert(p as int, v@[i as int]));
            vstd::seq_lib::to_multiset_insert(old_out, p as int, v@[i as int]);
            vstd::seq_lib::to_multiset_build(v@.take(i as int), v@[i as int]);
            assert(out@.to_multiset() == v@.take(i + 1).to_multiset());
            assert forall|a: int, b: int| 0 <= a <= b < out@.len() implies (#[trigger] out@[a]).timestamp <= (#[trigger] out@[b]).timestamp by {
                let ia = if a < p { a } else if a == p { -1 } else { a - 1 };
                let ib = if b < p { b } else if b == p { -1 } else { b - 1 };
                if ia >= 0 && ib >= 0 {
                    assert(out@[a] == old_out[ia]);
                    assert(out@[b] == old_out[ib]);
                } else if ia < 0 && ib >= 0 {
                    assert(out@[b] == old_out[ib]);
                    if p < old_out.len() {
                        assert(old_out[p as int].timestamp > v@[i as int].timestamp);
                        assert(old_out[p as int].timestamp <= old_out[ib].timestamp);
                    }
                } else if ia >= 0 && ib < 0 {
                    assert(out@[a] == old_out[ia]);
                }
            }
        }
        i = i + 1;
    }
    assert(v@.take(v@.len() as int) =~= v@);
    out
}

/// Each line of `logs` is listed under its own service.
pub open spec fn lines_of_own_service(logs: Seq<(String, Vec<LogLine>)>) -> bool {
    forall|i: int, j: int| 0 <= i < logs.len() && 0 <= j < logs[i].1@.len() ==> (#[trigger] logs[i].1@[j]).service_fqn@ == logs[i].0@
}

impl LogBuffer {
    /// The lines of each service.
    pub open spec fn lines(&self) -> Map<Seq<char>, Seq<LogLine>> {
        assoc_view(self.logs@).map_values(|v: Vec<LogLine>| v@)
    }

    /// Each service is listed once, with lines of that service only.
    pub open spec fn wf(&self) -> bool {
        &&& assoc_keys(self.logs@).no_duplicates()
        &&& lines_of_own_service(self.logs@)
    }

    /// An empty buffer keeping at most `max_lines` lines per service.
    pub fn new(max_lines: usize) -> (r: Self)
        ensures
            r.wf(),
            r.max_lines == max_lines,
            r.lines() == Map::<Seq<char>, Seq<LogLine>>::empty(),
    {
        let r = LogBuffer { max_lines, logs: Vec::new() };
        assert(r.lines() =~= Map::<Seq<char>, Seq<LogLine>>::empty());
        r
    }

    /// Adds a line at the end of its service's lines, dropping the oldest lines beyond
    /// the limit.
    pub fn add(&mut self, log: LogLine)
        requires
            old(self).wf(),
        ensures
            final(self).wf(),
            final(self).max_lines == old(self).max_lines,
            final(self).lines() == old(self).lines().insert(
                log.service_fqn@,
                last_n(
                    (if old(self).lines().contains_key(log.service_fqn@) {
                        old(self).lines()[log.service_fqn@]
                    } else {
                        Seq::empty()
                    }).push(log),
                    old(self).max_lines as nat,
                ),
            ),
    {
        let key = log.service_fqn.clone();
        let ghost lg = log;
        match assoc_find(&self.logs, &chars_of(key.as_str())) {
            Some(j) => {
                let mut lines = copy_lines(&self.logs[j].1, 0);
                assert(self.logs@[j as int].1@.skip(0) =~= self.logs@[j as int].1@);
                lines.push(log);
                let start = if lines.len() > self.max_lines { lines.len() - self.max_lines } else { 0 };
                let kept = copy_lines(&lines, start);
                assert(lines@.skip(0) =~= lines@);
                proof {
                    lemma_assoc_replace(self.logs@, j as int, (key, kept));
                    assert forall|b: int| 0 <= b < lines@.len() implies (#[trigger] lines@[b]).service_fqn@ == key@ by {
                        if b < lines@.len() - 1 {
                            assert(lines@[b] == self.logs@[j as int].1@[b]);
                        }
                    }
                    assert forall|b: int| 0 <= b < kept@.len() implies (#[trigger] kept@[b]).service_fqn@ == key@ by {
                        assert(kept@[b] == lines@[start + b]);
                    }
                }
                let ghost before = self.logs@;
                self.logs.set(j, (key, kept));
                proof {
                    assert forall|a: int, b: int| 0 <= a < self.logs@.len() && 0 <= b < self.logs@[a].1@.len() implies (#[trigger] self.logs@[a].1@[b]).service_fqn@ == self.logs@[a].0@ by {
                        if a != j {
                            assert(self.logs@[a] == before[a]);
                        }
                    }
                    assert(self.lines() =~= old(self).lines().insert(
                        lg.service_fqn@,
                        last_n(old(self).lines()[lg.service_fqn@].push(lg), old(self).max_lines as nat),
                    ));
                }
            },
            None => {
                let mut lines: Vec<LogLine> = Vec::new();
                lines.push(log);
                let start = if lines.len() > self.max_lines { lines.len() - self.max_lines } else { 0 };
                let kept = copy_lines(&lines, start);
                assert(lines@.skip(0) =~= lines@);
                let ghost e = (key, kept);
                proof {
                    lemma_assoc_push(self.logs@, e);
                    assert(assoc_keys(self.logs@.push(e)) =~= assoc_keys(self.logs@).push(e.0@));
                    assert(!assoc_keys(self.logs@).contains(e.0@)) by {
                        if assoc_keys(self.logs@).contains(e.0@) {
                            let k = choose|k: int| 0 <= k < assoc_keys(self.logs@).len() && assoc_keys(self.logs@)[k] == e.0@;
                            lemma_assoc_has_key(self.logs@, k);
                        }
                    }
                    assert(lines@ =~= Seq::<LogLine>::empty().push(lg));
                    assert forall|b: int| 0 <= b < kept@.len() implies (#[trigger] kept@[b]).service_fqn@ == key@ by {
                        assert(kept@[b] == lines@[start + b]);
                    }
                }
                let ghost before = self.logs@;
                self.logs.push((key, kept));
                proof {
                    assert forall|a: int, b: int| 0 <= a < self.logs@.len() && 0 <= b < self.logs@[a].1@.len() implies (#[trigger] self.logs@[a].1@[b]).service_fqn@ == self.logs@[a].0@ by {
                        if a < before.len() {
                            assert(self.logs@[a] == before[a]);
                        }
                    }
                    assert(self.lines() =~= old(self).lines().insert(
                        lg.service_fqn@,
                        last_n(Seq::<LogLine>::empty().push(lg), old(self).max_lines as nat),
                    ));
                }
            },
        }
    }

    /// The lines of `service_fqn`: the last `limit` ones, or all without a limit; none
    /// for an unknown service.
    pub fn get(&self, service_fqn: &str, limit: Option<usize>) -> (r: Vec<LogLine>)
        ensures
            r@ == (if self.lines().contains_key(service_fqn@) {
                limited(self.lines()[service_fqn@], limit)
            } else {
                Seq::empty()
            }),
    {
        match assoc_find(&self.logs, &chars_of(service_fqn)) {
            Some(j) => {
                let lines = &self.logs[j].1;
                let start = match limit {
                    Some(l) => if lines.len() > l { lines.len() - l } else { 0 },
                    None => 0,
                };
                let r = copy_lines(lines, start);
                assert(lines@.skip(0) =~= lines@);
                r
            },
            None => Vec::new(),
        }
    }

    /// The lines of the services `pattern` selects (all without a pattern), ordered by
    /// time: the last `limit` of them, or all without a limit. Lines of the same time come
    /// in an order left open.
    pub fn get_all(&self, pattern: Option<&str>, limit: Option<usize>) -> (r: Vec<LogLine>)
        ensures
            exists|s: Seq<LogLine>|
                sorted_by_time(s) && s.to_multiset() == collected(
                    self.logs@,
                    match pattern {
                        Some(p) => Some(p@),
                        None => None,
                    },
                ).to_multiset() && r@ == limited(s, limit),
    {
        let ghost pv = match pattern {
            Some(p) => Some(p@),
            None => None,
        };
        let mut all: Vec<LogLine> = Vec::new();
        let mut i: usize = 0;
        while i < self.logs.len()
            invariant
                i <= self.logs@.len(),
                pv == (match pattern {
                    Some(p) => Some(p@),
                    None => None,
                }),
                all@ == collected(self.logs@.take(i as int), pv),
            decreases self.logs.len() - i,
        {
            assert(self.logs@.take(i + 1).drop_last() =~= self.logs@.take(i as int));
            if query_matches(pattern, self.logs[i].0.as_str()) {
                let more = copy_lines(&self.logs[i].1, 0);
                assert(self.logs@[i as int].1@.skip(0) =~= self.logs@[i as int].1@);
                let mut k: usize = 0;
                let ghost a0 = all@;
                while k < more.len()
                    invariant
                        k <= more@.len(),
                        all@ == a0 + more@.take(k as int),
                    decreases more.len() - k,
                {
                    all.push(copy_line(&more[k]));
                    assert(all@ =~= a0 + more@.take(k + 1));
                    k = k + 1;
                }
                assert(more@.take(more@.len() as int) =~= more@);
            }
            assert(all@ =~= collected(self.logs@.take(i + 1), pv));
            i = i + 1;
        }
        assert(self.logs@.take(self.logs@.len() as int) =~= self.logs@);
        let sorted = sort_by_time(&all);
        let start = match limit {
            Some(l) => if sorted.len() > l { sorted.len() - l } else { 0 },
            None => 0,
        };
        let r = copy_lines(&sorted, start);
        assert(sorted@.skip(0) =~= sorted@);
        r
    }

    /// Forgets the lines of `service_fqn`.
    pub fn clear(&mut self, service_fqn: &str)
        requires
            old(self).wf(),
        ensures
            final(self).wf(),
            final(self).max_lines == old(self).max_lines,
            final(self).lines() == old(self).lines().remove(service_fqn@),
    {
        match assoc_find(&self.logs, &chars_of(service_fqn)) {
            Some(j) => {
                proof {
                    crate::assoc::lemma_assoc_remove(self.logs@, j as int);
                }
                let ghost before = self.logs@;
                self.logs.remove(j);
                proof {
                    assert forall|a: int, b: int| 0 <= a < self.logs@.len() && 0 <= b < self.logs@[a].1@.len() implies (#[trigger] self.logs@[a].1@[b]).service_fqn@ == self.logs@[a].0@ by {
                        if a < j {
                            assert(self.logs@[a] == before[a]);
                        } else {
                            assert(self.logs@[a] == before[a + 1]);
                        }
                    }
                }
                assert(self.lines() =~= old(self).lines().remove(service_fqn@));
            },
            None => {
                assert(self.lines() =~= old(self).lines().remove(service_fqn@));
            },
        }
    }

    /// Forgets all lines.
    pub fn clear_all(&mut self)
        ensures
            final(self).wf(),
            final(self).max_lines == old(self).max_lines,
            final(self).lines() == Map::<Seq<char>, Seq<LogLine>>::empty(),
    {
        self.logs = Vec::new();
        assert(self.lines() =~= Map::<Seq<char>, Seq<LogLine>>::empty());
    }
}

impl Default for LogBuffer {
    /// An empty buffer of ten thousand lines per service.
    fn default() -> (r: Self)
        ensures
            r.wf(),
            r.max_lines == 10000,
            r.lines() == Map::<Seq<char>, Seq<LogLine>>::empty(),
    {
        LogBuffer::new(10000)
    }
}

/// A buffer keeps the newest lines: after adding a line, reading the service back ends
/// with that line, and holds no more lines than the limit.
pub proof fn lemma_read_after_add(before: LogBuffer, after: LogBuffer, log: LogLine)
    requires
        before.max_lines > 0,
        after.max_lines == before.max_lines,
        after.lines() == before.lines().insert(
            log.service_fqn@,
            last_n(
                (if before.lines().contains_key(log.service_fqn@) {
                    before.lines()[log.service_fqn@]
                } else {
                    Seq::empty()
                }).push(log),
                before.max_lines as nat,
            ),
        ),
    ensures
        after.lines().contains_key(log.service_fqn@),
        after.lines()[log.service_fqn@].len() > 0,
        after.lines()[log.service_fqn@].last() == log,
        after.lines()[log.service_fqn@].len() <= after.max_lines,
        forall|k: Seq<char>| k != log.service_fqn@ ==> #[trigger] after.lines().contains_key(k) == before.lines().contains_key(k)
            && (after.lines().contains_key(k) ==> after.lines()[k] == before.lines()[k]),
{
}

} // verus!
