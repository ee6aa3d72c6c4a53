//! A monotonic clock read as nanoseconds since an origin instant.

use vstd::prelude::*;

verus! {

/// `std::time::Instant`, carried through the library as an opaque origin.
#[verifier::external_type_specification]
#[verifier::external_body]
pub struct ExInstant(std::time::Instant);

/// Calls `std::time::Instant::now`. Nothing is stated of the instant: it
/// depends on the machine's clock.
#[verifier::external_body]
pub fn clock_origin() -> std::time::Instant {
    std::time::Instant::now()
}

/// Calls `std::time::Instant::elapsed` on `origin` and returns the elapsed
/// time in nanoseconds, clamped to `u64::MAX` when it does not fit (after
/// about 584 years). Nothing is stated of the value: it depends on the clock
/// when the call is made.
#[verifier::external_body]
fn nanos_since(origin: &std::time::Instant) -> u64 {
    u64::try_from(origin.elapsed().as_nanos()).unwrap_or(u64::MAX)
}

/// A monotonic clock: nanoseconds since the instant it was started, never
/// going back. `std::time::Instant` is monotonic already; the clock also
/// keeps its last remembered reading and never reports less than it, so
/// that this is proved rather than assumed.
pub struct MonotonicClock {
    origin: std::time::Instant,
    last: u64,
}

impl MonotonicClock {
    /// The last reading the clock remembered.
    pub closed spec fn last_reading(&self) -> u64 {
        self.last
    }

    /// A clock started now.
    pub fn start() -> (c: Self)
        ensures
            c.last_reading() == 0,
    {
        MonotonicClock { origin: clock_origin(), last: 0 }
    }

    /// The time now, without remembering it: never earlier than the last
    /// remembered reading.
    pub fn peek(&self) -> (t: u64)
        ensures
            t >= self.last_reading(),
    {
        let t = nanos_since(&self.origin);
        if t > self.last { t } else { self.last }
    }

    /// The time now, and the clock that remembers it as its last reading:
    /// never earlier than this clock's last reading.
    pub fn read(&self) -> (r: (MonotonicClock, u64))
        ensures
            r.1 >= self.last_reading(),
            r.0.last_reading() == r.1,
    {
        let t = self.peek();
        (MonotonicClock { origin: self.origin, last: t }, t)
    }
}

/// Nanoseconds in one second.
pub const NANOS_PER_SEC: u64 = 1_000_000_000;

/// The most nanoseconds a duration of whole `u64` seconds can hold.
pub open spec fn max_duration_nanos() -> int {
    u64::MAX as int * NANOS_PER_SEC as int
}

/// `secs` seconds as nanoseconds (`Duration::from_secs(secs)`, exactly).
pub open spec fn secs_to_nanos(secs: u64) -> int {
    secs as int * NANOS_PER_SEC as int
}

/// Converts whole seconds to nanoseconds, exactly.
pub fn seconds_as_nanos(secs: u64) -> (n: u128)
    ensures
        n as int == secs_to_nanos(secs),
        n as int <= max_duration_nanos(),
{
    proof {
        assert(secs as int * NANOS_PER_SEC as int <= u64::MAX as int * NANOS_PER_SEC as int)
            by (nonlinear_arith);
    }
    (secs as u128) * (NANOS_PER_SEC as u128)
}

} // verus!
