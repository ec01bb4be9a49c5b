//! Reading the clocks.

use vstd::prelude::*;
use crate::duration::ConfigDuration;

verus! {

/// A reading of the monotonic clock.
#[verifier::external_type_specification]
#[verifier::external_body]
pub struct ExInstant(std::time::Instant);

/// `SystemTime::now`, as seconds since the Unix epoch; nothing on a clock set before
/// it. Nothing is claimed of the reading.
#[verifier::external_body]
fn wall_clock() -> (r: Option<u64>) {
    match std::time::SystemTime::now().duration_since(std::time::UNIX_EPOCH) {
        Ok(d) => Some(d.as_secs()),
        Err(_) => None,
    }
}

/// A number is what the wall clock can read as the present; zero stands for a time
/// before the epoch.
pub closed spec fn stamp(at: u64) -> bool {
    ||| call_ensures(wall_clock, (), Some(at))
    ||| at == 0 && call_ensures(wall_clock, (), None)
}

/// The present, in seconds since the Unix epoch.
pub(crate) fn unix_now() -> (r: u64)
    ensures
        stamp(r),
{
    match wall_clock() {
        Some(at) => at,
        None => 0,
    }
}

/// `Instant::now` reads the monotonic clock. Nothing is claimed of the reading.
pub assume_specification [std::time::Instant::now] () -> (r: std::time::Instant);

/// `Instant::elapsed` reads the clock and gives the time since an instant. Nothing
/// is claimed of the reading.
pub assume_specification [std::time::Instant::elapsed] (started: &std::time::Instant) -> (r: std::time::Duration);

/// `Duration::as_secs` gives the whole seconds of a duration. Nothing is claimed of
/// how many they are.
pub assume_specification [std::time::Duration::as_secs] (span: &std::time::Duration) -> (r: u64);

/// `Duration::subsec_nanos` gives the nanoseconds of a duration beyond its whole
/// seconds, which are always less than a second.
pub assume_specification [std::time::Duration::subsec_nanos] (span: &std::time::Duration) -> (r: u32)
    ensures
        r < 1_000_000_000,
;

/// An instant is what the monotonic clock can read as the present.
pub open spec fn present(r: std::time::Instant) -> bool {
    call_ensures(std::time::Instant::now, (), r)
}

/// The present, by the monotonic clock.
pub(crate) fn start() -> (r: std::time::Instant)
    ensures
        present(r),
{
    std::time::Instant::now()
}

/// A duration is what the clock can read of the time since an instant: the whole
/// seconds and the remaining nanoseconds of what elapsed since then.
pub open spec fn reading(started: std::time::Instant, r: ConfigDuration) -> bool {
    exists|span: std::time::Duration|
        #![trigger call_ensures(std::time::Instant::elapsed, (&started,), span)]
        {
            &&& call_ensures(std::time::Instant::elapsed, (&started,), span)
            &&& call_ensures(std::time::Duration::as_secs, (&span,), r.secs)
            &&& call_ensures(std::time::Duration::subsec_nanos, (&span,), r.nanos)
        }
}

/// The time since an instant, by the monotonic clock.
pub(crate) fn since(started: &std::time::Instant) -> (r: ConfigDuration)
    ensures
        reading(*started, r),
        r.wf(),
{
    let span = started.elapsed();
    ConfigDuration { secs: span.as_secs(), nanos: span.subsec_nanos() }
}

} // verus!
