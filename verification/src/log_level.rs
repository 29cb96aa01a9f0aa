//! Severity of log lines: seven levels, from `trace` to `fatal`.

use vstd::prelude::*;
use core::cmp::Ordering;
use vstd::std_specs::cmp::PartialOrdSpecImpl;
use crate::text::str_eq;
use crate::case::{lowercase, to_lowercase};

verus! {

/// Severity of a log line, least severe first.
#[derive(Clone, Copy, Debug, PartialEq, Eq, Structural, Ord, Hash)]
pub enum LogLevel {
    Trace,
    Debug,
    Info,
    Notice,
    Warn,
    Error,
    Fatal,
}

/// The position of a level in the severity order.
pub open spec fn rank(l: LogLevel) -> nat {
    match l {
        LogLevel::Trace => 0,
        LogLevel::Debug => 1,
        LogLevel::Info => 2,
        LogLevel::Notice => 3,
        LogLevel::Warn => 4,
        LogLevel::Error => 5,
        LogLevel::Fatal => 6,
    }
}

/// The position of a level in the severity order.
pub fn level_rank(l: LogLevel) -> (r: u8)
    ensures
        r == rank(l),
{
    match l {
        LogLevel::Trace => 0,
        LogLevel::Debug => 1,
        LogLevel::Info => 2,
        LogLevel::Notice => 3,
        LogLevel::Warn => 4,
        LogLevel::Error => 5,
        LogLevel::Fatal => 6,
    }
}

/// Severity order as an `Ordering`.
pub open spec fn compare_levels(a: LogLevel, b: LogLevel) -> Option<Ordering> {
    if rank(a) < rank(b) {
        Some(Ordering::Less)
    } else if rank(a) == rank(b) {
        Some(Ordering::Equal)
    } else {
        Some(Ordering::Greater)
    }
}

impl PartialOrd for LogLevel {
    fn partial_cmp(&self, other: &LogLevel) -> (r: Option<Ordering>) {
        let a = level_rank(*self);
        let b = level_rank(*other);
        if a < b {
            Some(Ordering::Less)
        } else if a == b {
            Some(Ordering::Equal)
        } else {
            Some(Ordering::Greater)
        }
    }
}

impl PartialOrdSpecImpl for LogLevel {
    open spec fn obeys_partial_cmp_spec() -> bool {
        true
    }

    open spec fn partial_cmp_spec(&self, other: &LogLevel) -> Option<Ordering> {
        compare_levels(*self, *other)
    }
}

/// The lowercase name of a level.
pub open spec fn level_text(l: LogLevel) -> Seq<char> {
    match l {
        LogLevel::Trace => "trace"@,
        LogLevel::Debug => "debug"@,
        LogLevel::Info => "info"@,
        LogLevel::Notice => "notice"@,
        LogLevel::Warn => "warn"@,
        LogLevel::Error => "error"@,
        LogLevel::Fatal => "fatal"@,
    }
}

/// The level a name stands for, among the names and their aliases (`warning`; `err`;
/// `critical`, `crit`); the name is given in lowercase.
pub open spec fn level_named(s: Seq<char>) -> Option<LogLevel> {
    if s == "trace"@ {
        Some(LogLevel::Trace)
    } else if s == "debug"@ {
        Some(LogLevel::Debug)
    } else if s == "info"@ {
        Some(LogLevel::Info)
    } else if s == "notice"@ {
        Some(LogLevel::Notice)
    } else if s == "warn"@ || s == "warning"@ {
        Some(LogLevel::Warn)
    } else if s == "error"@ || s == "err"@ {
        Some(LogLevel::Error)
    } else if s == "fatal"@ || s == "critical"@ || s == "crit"@ {
        Some(LogLevel::Fatal)
    } else {
        None
    }
}

impl LogLevel {
    /// The lowercase name of the level.
    pub fn as_str(&self) -> (r: &'static str)
        ensures
            r@ == level_text(*self),
    {
        match self {
            LogLevel::Trace => "trace",
            LogLevel::Debug => "debug",
            LogLevel::Info => "info",
            LogLevel::Notice => "notice",
            LogLevel::Warn => "warn",
            LogLevel::Error => "error",
            LogLevel::Fatal => "fatal",
        }
    }

    /// The level named by `s` in any case; an unknown name gives
    /// `Unknown log level: <s>`.
    pub fn parse(s: &str) -> (r: Result<LogLevel, String>)
        ensures
            match r {
                Ok(l) => level_named(lowercase(s@)) == Some(l),
                Err(m) => level_named(lowercase(s@)) is None && m@ == "Unknown log level: "@ + s@,
            },
    {
        let l = to_lowercase(s);
        let t = l.as_str();
        if str_eq(t, "trace") {
            Ok(LogLevel::Trace)
        } else if str_eq(t, "debug") {
            Ok(LogLevel::Debug)
        } else if str_eq(t, "info") {
            Ok(LogLevel::Info)
        } else if str_eq(t, "notice") {
            Ok(LogLevel::Notice)
        } else if str_eq(t, "warn") || str_eq(t, "warning") {
            Ok(LogLevel::Warn)
        } else if str_eq(t, "error") || str_eq(t, "err") {
            Ok(LogLevel::Error)
        } else if str_eq(t, "fatal") || str_eq(t, "critical") || str_eq(t, "crit") {
            Ok(LogLevel::Fatal)
        } else {
            let mut m = "Unknown log level: ".to_owned();
            m.append(s);
            Err(m)
        }
    }
}

impl core::str::FromStr for LogLevel {
    type Err = String;

    fn from_str(s: &str) -> Result<LogLevel, String> {
        LogLevel::parse(s)
    }
}

/// The severity order is total and strict: of two different levels exactly one is lower.
pub proof fn lemma_level_order_total(a: LogLevel, b: LogLevel)
    ensures
        a != b ==> (rank(a) < rank(b) || rank(b) < rank(a)),
        !(rank(a) < rank(b) && rank(b) < rank(a)),
        compare_levels(a, b) == Some(Ordering::Equal) <==> a == b,
{
}

} // verus!
