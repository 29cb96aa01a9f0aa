//! Reading the clock: the time since a start, and the current wall-clock time.

use vstd::prelude::*;
use crate::duration::Duration;

verus! {

#[verifier::external_type_specification]
#[verifier::external_body]
pub struct ExInstant(std::time::Instant);

/// `std::time::Instant::now`: the current time. Nothing is claimed of it.
#[verifier::external_body]
pub(crate) fn now() -> std::time::Instant {
    std::time::Instant::now()
}

/// `std::time::Instant::elapsed`: the time since `start`. Nothing is claimed of it.
#[verifier::external_body]
pub(crate) fn elapsed(start: &std::time::Instant) -> std::time::Duration {
    start.elapsed()
}

/// `std::time::Duration::as_secs`: the whole seconds of a span.
#[verifier::external_body]
pub(crate) fn whole_secs(d: &std::time::Duration) -> u64 {
    d.as_secs()
}

/// `std::time::Duration::subsec_nanos`: the nanoseconds of a span beyond its whole
/// seconds, which the documentation promises are fewer than a second.
#[verifier::external_body]
pub(crate) fn subsec_nanos(d: &std::time::Duration) -> (r: u32)
    ensures
        r < crate::duration::NANOS_PER_SEC,
{
    d.subsec_nanos()
}

/// The time since `start`.
pub(crate) fn time_since(start: &std::time::Instant) -> (d: Duration)
    ensures
        d.wf(),
{
    let e = elapsed(start);
    Duration { secs: whole_secs(&e), nanos: subsec_nanos(&e) }
}

#[verifier::external_type_specification]
#[verifier::external_body]
pub struct ExSystemTimeError(std::time::SystemTimeError);

/// `std::time::SystemTime::elapsed` on the Unix epoch: the time since the epoch, or an
/// error when the clock is set before it. Nothing is claimed of the result.
#[verifier::external_body]
fn epoch_elapsed() -> Result<std::time::Duration, std::time::SystemTimeError> {
    std::time::UNIX_EPOCH.elapsed()
}

/// `std::time::SystemTimeError::duration`: how far before the epoch the clock was.
#[verifier::external_body]
fn error_duration(e: &std::time::SystemTimeError) -> std::time::Duration {
    e.duration()
}

/// A span in whole microseconds, capped at the largest `i64`.
fn micros_of(d: Duration) -> (r: i64)
    requires
        d.wf(),
    ensures
        r == if d.total_nanos() / 1000 <= i64::MAX { d.total_nanos() / 1000 } else { i64::MAX as int },
{
    if d.secs > 9_223_372_036_854 {
        assert(d.total_nanos() / 1000 > i64::MAX) by (nonlinear_arith)
            requires d.secs > 9_223_372_036_854, d.total_nanos() == d.secs * 1_000_000_000 + d.nanos, d.nanos >= 0;
        i64::MAX
    } else {
        let whole: u64 = d.secs * 1_000_000;
        let part: u64 = (d.nanos / 1000) as u64;
        let total: u64 = whole + part;
        assert(total == d.total_nanos() / 1000) by (nonlinear_arith)
            requires whole == d.secs * 1_000_000, part == d.nanos / 1000, total == whole + part,
                d.total_nanos() == d.secs * 1_000_000_000 + d.nanos, d.nanos < 1_000_000_000, d.nanos >= 0;
        if total > 9_223_372_036_854_775_807 {
            i64::MAX
        } else {
            total as i64
        }
    }
}

/// A wall-clock reading in whole microseconds from the Unix epoch, for a clock a span
/// `d` after the epoch, or before it when `before_epoch`: the span's microseconds,
/// capped at the largest `i64`, negated before the epoch.
pub open spec fn epoch_offset_micros(before_epoch: bool, d: Duration) -> int {
    let m = if d.total_nanos() / 1000 <= i64::MAX { d.total_nanos() / 1000 } else { i64::MAX as int };
    if before_epoch {
        -m
    } else {
        m
    }
}

/// The reading of a clock a span `d` after (or before) the Unix epoch, in microseconds
/// (see `epoch_offset_micros`).
pub fn signed_micros(before_epoch: bool, d: Duration) -> (r: i64)
    requires
        d.wf(),
    ensures
        r == epoch_offset_micros(before_epoch, d),
{
    let m = micros_of(d);
    if before_epoch {
        -m
    } else {
        m
    }
}

/// The current wall-clock time, in microseconds since the Unix epoch (negative before
/// it): the reading of the clock as `epoch_offset_micros` gives it, for whatever span
/// from the epoch the system clock reports.
pub(crate) fn now_micros() -> (r: i64)
    ensures
        exists|before_epoch: bool, d: Duration| d.wf() && r == #[trigger] epoch_offset_micros(before_epoch, d),
{
    let (before_epoch, d) = match epoch_elapsed() {
        Ok(d) => (false, d),
        Err(e) => (true, error_duration(&e)),
    };
    let span = Duration { secs: whole_secs(&d), nanos: subsec_nanos(&d) };
    let r = signed_micros(before_epoch, span);
    assert(span.wf() && r == epoch_offset_micros(before_epoch, span));
    r
}

} // verus!
