//! Time as the session logic sees it: spans and points on a monotonic clock,
//! both counted in nanoseconds.
use vstd::prelude::*;

verus! {

/// A span of time, in nanoseconds.
#[derive(Debug, Clone, Copy, PartialEq, Eq, Structural)]
pub struct Duration {
    pub nanos: u128,
}

impl Duration {
    /// `secs` seconds.
    pub fn from_secs(secs: u64) -> (d: Self)
        ensures
            d.nanos == secs * 1_000_000_000,
    {
        Duration { nanos: secs as u128 * 1_000_000_000u128 }
    }

    /// `millis` milliseconds.
    pub fn from_millis(millis: u64) -> (d: Self)
        ensures
            d.nanos == millis * 1_000_000,
    {
        Duration { nanos: millis as u128 * 1_000_000u128 }
    }

    /// `nanos` nanoseconds.
    pub fn from_nanos(nanos: u128) -> (d: Self)
        ensures
            d.nanos == nanos,
    {
        Duration { nanos }
    }

    /// Whole seconds in the span (the low 64 bits, for spans longer than
    /// any `std::time::Duration`).
    pub fn as_secs(&self) -> (s: u64)
        ensures
            s == (self.nanos / 1_000_000_000) as u64,
    {
        let secs = self.nanos / 1_000_000_000u128;
        #[verifier::truncate]
        (secs as u64)
    }

    /// The span in nanoseconds.
    pub fn as_nanos(&self) -> (n: u128)
        ensures
            n == self.nanos,
    {
        self.nanos
    }
}

/// A point on the monotonic clock: nanoseconds since the clock started.
#[derive(Debug, Clone, Copy, PartialEq, Eq, Structural)]
pub struct MonoTime {
    pub nanos: u128,
}

/// The time from `earlier` to `later`, or zero when `later` is not after
/// `earlier`.
pub open spec fn elapsed_nanos(later: MonoTime, earlier: MonoTime) -> nat {
    if later.nanos >= earlier.nanos {
        (later.nanos - earlier.nanos) as nat
    } else {
        0
    }
}

impl MonoTime {
    /// The point `nanos` nanoseconds after the clock started.
    pub fn from_nanos(nanos: u128) -> (t: Self)
        ensures
            t.nanos == nanos,
    {
        MonoTime { nanos }
    }

    /// The time elapsed from `earlier` to `self`, saturating at zero.
    pub fn duration_since(&self, earlier: MonoTime) -> (d: Duration)
        ensures
            d.nanos == elapsed_nanos(*self, earlier),
    {
        Duration { nanos: self.nanos.saturating_sub(earlier.nanos) }
    }
}

#[verifier::external_type_specification]
#[verifier::external_body]
pub struct ExInstant(std::time::Instant);

/// The process's monotonic clock, started at a fixed instant.
pub struct Clock {
    start: std::time::Instant,
}

/// `std::time::Instant::now`: the current instant. Nothing is claimed of it.
#[verifier::external_body]
fn instant_now() -> (t: std::time::Instant) {
    std::time::Instant::now()
}

/// `std::time::Instant::elapsed`: the time since `start`. Nothing is
/// claimed of it.
#[verifier::external_body]
fn instant_elapsed(start: &std::time::Instant) -> (d: core::time::Duration) {
    start.elapsed()
}

/// `core::time::Duration::as_nanos`: the whole nanoseconds of `d`. Nothing
/// is claimed of it, as `Duration` is opaque here.
#[verifier::external_body]
fn std_duration_nanos(d: core::time::Duration) -> (n: u128) {
    d.as_nanos()
}

#[verifier::external_type_specification]
#[verifier::external_body]
pub struct ExSystemTime(std::time::SystemTime);

/// `std::time::SystemTime::now`: the wall-clock time. Nothing is claimed of
/// it.
#[verifier::external_body]
fn system_time_now() -> (t: std::time::SystemTime) {
    std::time::SystemTime::now()
}

/// `std::time::SystemTime::duration_since(UNIX_EPOCH)`: the time since the
/// Unix epoch, or `None` for a time before it. Nothing is claimed of it.
#[verifier::external_body]
fn since_unix_epoch(t: std::time::SystemTime) -> (d: Option<core::time::Duration>) {
    t.duration_since(std::time::UNIX_EPOCH).ok()
}

/// Nanoseconds since the Unix epoch from a clock reading: zero when the
/// clock is set before the epoch (`None`), otherwise the reading capped at
/// `u64::MAX` (past the year 2554).
pub fn unix_nanos_from(since: Option<u128>) -> (n: u64)
    ensures
        n == match since {
            None => 0,
            Some(x) => if x > u64::MAX {
                u64::MAX as int
            } else {
                x as int
            },
        },
{
    match since {
        Some(nanos) => {
            if nanos > u64::MAX as u128 {
                u64::MAX
            } else {
                nanos as u64
            }
        },
        None => 0,
    }
}

/// The wall-clock time in nanoseconds since the Unix epoch, as
/// `unix_nanos_from` maps the reading. Depends on when it is called and on
/// how the clock is set.
pub fn unix_now_nanos() -> (n: u64) {
    let since = match since_unix_epoch(system_time_now()) {
        Some(d) => Some(std_duration_nanos(d)),
        None => None,
    };
    unix_nanos_from(since)
}

impl Clock {
    /// A clock starting now.
    pub fn start() -> (c: Self) {
        Clock { start: instant_now() }
    }

    /// The current time on this clock. Depends on when it is called.
    pub fn now(&self) -> (t: MonoTime) {
        MonoTime { nanos: std_duration_nanos(instant_elapsed(&self.start)) }
    }
}

} // verus!
