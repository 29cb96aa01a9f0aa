//! The daemon's answers that are computed from its state: the log lines a `GetLogs`
//! request selects and the service totals of a status report.

use vstd::prelude::*;
use crate::log_level::{level_named, rank, LogLevel};
use crate::case::lowercase;
use crate::observability::{collected, copy_line, last_n, limited, sorted_by_time, LogBuffer, LogLine};
use crate::source_manager::{SourceInfo, SourceStatus};
use crate::text::{chars_contain, chars_of, has_suffix, str_ends_with, str_eq};

verus! {

/// How many log lines a request gets when it names no number.
pub const LOG_LINES_LIMIT: usize = 100;

/// The lines of `all` that belong to the service called `name` in some source (their
/// service is `<source>:<name>`) or whose service is exactly `name`, in order.
pub open spec fn lines_named(all: Seq<LogLine>, name: Seq<char>) -> Seq<LogLine>
    decreases all.len(),
{
    if all.len() == 0 {
        Seq::empty()
    } else {
        let rest = lines_named(all.drop_last(), name);
        let f = all.last().service_fqn@;
        if has_suffix(f, seq![':'] + name) || f == name {
            rest.push(all.last())
        } else {
            rest
        }
    }
}

/// The lines of `s` from `since` on (all without a time), in order.
pub open spec fn lines_since(s: Seq<LogLine>, since: Option<i64>) -> Seq<LogLine>
    decreases s.len(),
{
    if s.len() == 0 {
        Seq::empty()
    } else {
        let rest = lines_since(s.drop_last(), since);
        if since matches Some(t) && s.last().timestamp < t {
            rest
        } else {
            rest.push(s.last())
        }
    }
}

/// The lines of `s` at level `min` or above (all without a level), in order.
pub open spec fn lines_at_least(s: Seq<LogLine>, min: Option<LogLevel>) -> Seq<LogLine>
    decreases s.len(),
{
    if s.len() == 0 {
        Seq::empty()
    } else {
        let rest = lines_at_least(s.drop_last(), min);
        if min matches Some(m) && rank(s.last().level) < rank(m) {
            rest
        } else {
            rest.push(s.last())
        }
    }
}

/// The level a request's `level` names, if it names one.
pub open spec fn requested_level(level: Option<Seq<char>>) -> Option<LogLevel> {
    match level {
        Some(l) => level_named(lowercase(l)),
        None => None,
    }
}

/// The lines a `GetLogs` request selects before its time and level filters. `all` is
/// every buffered line ordered by time (lines of the same time in some order).
/// For a service: its last `limit` lines; where it has none and the name has no `:`, the
/// last `limit` lines of the services of that name in any source. Without a service: the
/// last `limit` of all lines.
pub open spec fn requested_lines(buffer: LogBuffer, all: Seq<LogLine>, fqn: Option<Seq<char>>, limit: nat) -> Seq<LogLine> {
    match fqn {
        Some(f) => {
            let own = if buffer.lines().contains_key(f) {
                last_n(buffer.lines()[f], limit)
            } else {
                Seq::empty()
            };
            if own.len() == 0 && !f.contains(':') {
                last_n(lines_named(all, f), limit)
            } else {
                own
            }
        },
        None => last_n(all, limit),
    }
}

fn named_lines(all: &Vec<LogLine>, name: &str) -> (r: Vec<LogLine>)
    ensures
        r@ == lines_named(all@, name@),
{
    let mut suffix = ":".to_owned();
    suffix.append(name);
    proof {
        reveal_strlit(":");
    }
    assert(suffix@ =~= seq![':'] + name@);
    let mut r: Vec<LogLine> = Vec::new();
    let mut i: usize = 0;
    while i < all.len()
        invariant
            i <= all@.len(),
            suffix@ == seq![':'] + name@,
            r@ == lines_named(all@.take(i as int), name@),
        decreases all@.len() - i,
    {
        assert(all@.take(i + 1).drop_last() =~= all@.take(i as int));
        assert(all@.take(i + 1).last() == all@[i as int]);
        let f = all[i].service_fqn.as_str();
        if str_ends_with(f, suffix.as_str()) || str_eq(f, name) {
            r.push(copy_line(&all[i]));
        }
        i = i + 1;
    }
    assert(all@.take(all@.len() as int) =~= all@);
    r
}

fn last_lines(v: Vec<LogLine>, n: usize) -> (r: Vec<LogLine>)
    ensures
        r@ == last_n(v@, n as nat),
{
    if v.len() <= n {
        return v;
    }
    let start = v.len() - n;
    let mut r: Vec<LogLine> = Vec::new();
    let mut i: usize = start;
    while i < v.len()
        invariant
            start <= i <= v@.len(),
            start == v@.len() - n,
            r@ == v@.subrange(start as int, i as int),
        decreases v@.len() - i,
    {
        r.push(copy_line(&v[i]));
        assert(v@.subrange(start as int, i + 1) =~= v@.subrange(start as int, i as int).push(v@[i as int]));
        i = i + 1;
    }
    assert(v@.skip(start as int) =~= v@.subrange(start as int, v@.len() as int));
    r
}

fn filter_since(v: Vec<LogLine>, since: Option<i64>) -> (r: Vec<LogLine>)
    ensures
        r@ == lines_since(v@, since),
{
    let mut r: Vec<LogLine> = Vec::new();
    let mut i: usize = 0;
    while i < v.len()
        invariant
            i <= v@.len(),
            r@ == lines_since(v@.take(i as int), since),
        decreases v@.len() - i,
    {
        assert(v@.take(i + 1).drop_last() =~= v@.take(i as int));
        assert(v@.take(i + 1).last() == v@[i as int]);
        let keep = match since {
            Some(t) => v[i].timestamp >= t,
            None => true,
        };
        if keep {
            r.push(copy_line(&v[i]));
        }
        i = i + 1;
    }
    assert(v@.take(v@.len() as int) =~= v@);
    r
}

fn filter_level(v: Vec<LogLine>, min: Option<LogLevel>) -> (r: Vec<LogLine>)
    ensures
        r@ == lines_at_least(v@, min),
{
    let mut r: Vec<LogLine> = Vec::new();
    let mut i: usize = 0;
    while i < v.len()
        invariant
            i <= v@.len(),
            r@ == lines_at_least(v@.take(i as int), min),
        decreases v@.len() - i,
    {
        assert(v@.take(i + 1).drop_last() =~= v@.take(i as int));
        assert(v@.take(i + 1).last() == v@[i as int]);
        let keep = match min {
            Some(m) => !(v[i].level < m),
            None => true,
        };
        if keep {
            r.push(copy_line(&v[i]));
        }
        i = i + 1;
    }
    assert(v@.take(v@.len() as int) =~= v@);
    r
}

/// Whether `r` is what a `GetLogs` request selects from `buffer`: `lines` lines (100 unless
/// given) for the service `fqn` (see `requested_lines`), then those from `since` on and at
/// the level `level` names or above (a level name that is unknown filters nothing). All
/// buffered lines are taken ordered by time; the order of lines of the same time is left
/// open.
pub open spec fn selected_logs(
    buffer: LogBuffer,
    fqn: Option<Seq<char>>,
    lines: Option<u32>,
    since: Option<i64>,
    level: Option<Seq<char>>,
    r: Seq<LogLine>,
) -> bool {
    exists|all: Seq<LogLine>|
        sorted_by_time(all) && all.to_multiset() == collected(buffer.logs@, None).to_multiset() && r
            == lines_at_least(
            lines_since(
                requested_lines(
                    buffer,
                    all,
                    fqn,
                    match lines {
                        Some(l) => l as nat,
                        None => LOG_LINES_LIMIT as nat,
                    },
                ),
                since,
            ),
            requested_level(level),
        )
}

/// The log lines a `GetLogs` request selects: `lines` of them (100 unless given) for the
/// service `fqn` (see `requested_lines`), then those from `since` on and at the level
/// `level` names or above (a level name that is unknown filters nothing). All buffered
/// lines are taken ordered by time; the order of lines of the same time is left open.
pub fn select_logs(buffer: &LogBuffer, fqn: Option<&str>, lines: Option<u32>, since: Option<i64>, level: Option<&str>) -> (r: Vec<LogLine>)
    requires
        buffer.wf(),
    ensures
        selected_logs(
            *buffer,
            match fqn {
                Some(f) => Some(f@),
                None => None,
            },
            lines,
            since,
            match level {
                Some(l) => Some(l@),
                None => None,
            },
            r@,
        ),
{
    let limit: usize = match lines {
        Some(l) => l as usize,
        None => LOG_LINES_LIMIT,
    };
    let min_level: Option<LogLevel> = match level {
        Some(l) => match LogLevel::parse(l) {
            Ok(m) => Some(m),
            Err(_) => None,
        },
        None => None,
    };
    let all = buffer.get_all(None, None);
    let ghost all_v = all@;
    let picked = match fqn {
        Some(f) => {
            let own = buffer.get(f, Some(limit));
            if own.len() == 0 && !chars_contain(&chars_of(f), ':') {
                last_lines(named_lines(&all, f), limit)
            } else {
                own
            }
        },
        None => last_lines(all, limit),
    };
    let r = filter_level(filter_since(picked, since), min_level);
    proof {
        let s = choose|s: Seq<LogLine>|
            sorted_by_time(s) && s.to_multiset() == collected(buffer.logs@, None).to_multiset()
                && all_v == limited(s, None);
        assert(all_v == s);
    }
    r
}

/// The services of the sources that are running, and the services of all sources.
pub open spec fn service_totals(sources: Seq<SourceInfo>) -> (int, int)
    decreases sources.len(),
{
    if sources.len() == 0 {
        (0, 0)
    } else {
        let (running, total) = service_totals(sources.drop_last());
        let s = sources.last();
        (
            running + if s.status is Running { s.service_count as int } else { 0 },
            total + s.service_count,
        )
    }
}

proof fn lemma_running_at_most_total(sources: Seq<SourceInfo>)
    ensures
        0 <= service_totals(sources).0 <= service_totals(sources).1,
    decreases sources.len(),
{
    if sources.len() > 0 {
        lemma_running_at_most_total(sources.drop_last());
    }
}

/// The number of services in running sources and in all sources, for a status report.
pub fn count_services(sources: &Vec<SourceInfo>) -> (r: (usize, usize))
    requires
        service_totals(sources@).1 <= usize::MAX,
    ensures
        r.0 == service_totals(sources@).0,
        r.1 == service_totals(sources@).1,
{
    let mut running: usize = 0;
    let mut total: usize = 0;
    let mut i: usize = 0;
    while i < sources.len()
        invariant
            i <= sources@.len(),
            service_totals(sources@).1 <= usize::MAX,
            (running as int, total as int) == service_totals(sources@.take(i as int)),
        decreases sources@.len() - i,
    {
        let ghost t = sources@.take(i + 1);
        assert(t.drop_last() =~= sources@.take(i as int));
        assert(t.last() == sources@[i as int]);
        proof {
            lemma_totals_prefix(sources@, i + 1);
            lemma_running_at_most_total(t);
        }
        let n = sources[i].service_count;
        if matches!(sources[i].status, SourceStatus::Running) {
            running = running + n;
        }
        total = total + n;
        i = i + 1;
    }
    assert(sources@.take(sources@.len() as int) =~= sources@);
    (running, total)
}

proof fn lemma_totals_prefix(sources: Seq<SourceInfo>, k: int)
    requires
        0 <= k <= sources.len(),
    ensures
        service_totals(sources.take(k)).1 <= service_totals(sources).1,
    decreases sources.len(),
{
    if k < sources.len() {
        lemma_totals_prefix(sources.drop_last(), k);
        assert(sources.drop_last().take(k) =~= sources.take(k));
    } else {
        assert(sources.take(k) =~= sources);
    }
}

} // verus!
