//! Lockout after repeated user-verification failures.

use vstd::prelude::*;
use crate::clock::{MonotonicClock, seconds_as_nanos, secs_to_nanos, max_duration_nanos};

verus! {

/// Abstract state of a lockout tracker. Times are nanoseconds on the
/// tracker's own monotonic clock; the lockout period is in nanoseconds too.
pub struct LockoutState {
    pub failures: nat,
    pub locked_until: Option<int>,
    pub max_failures: nat,
    pub lockout: nat,
}

/// The state after one more failure at time `now`: reaching the threshold
/// (re)starts the lockout period from `now`.
pub open spec fn failure_step(s: LockoutState, now: u64) -> LockoutState {
    let failures = s.failures + 1;
    LockoutState {
        failures: failures,
        locked_until: if failures >= s.max_failures {
            Some(now + s.lockout)
        } else {
            s.locked_until
        },
        ..s
    }
}

/// The state after a success: the failure count and any lockout are cleared.
pub open spec fn success_step(s: LockoutState) -> LockoutState {
    LockoutState { failures: 0, locked_until: None, ..s }
}

/// The time left in the lockout at `now`, if it is still running.
pub open spec fn remaining_lockout(s: LockoutState, now: u64) -> Option<int> {
    match s.locked_until {
        Some(until) => if now < until {
            Some(until - now)
        } else {
            None
        },
        None => None,
    }
}

/// The state after consecutive failures at the times in `times`.
pub open spec fn failures_run(s: LockoutState, times: Seq<u64>) -> LockoutState
    decreases times.len(),
{
    if times.len() == 0 {
        s
    } else {
        failure_step(failures_run(s, times.drop_last()), times.last())
    }
}

/// An optional count of nanoseconds, as an integer.
pub open spec fn nanos_opt(o: Option<u128>) -> Option<int> {
    match o {
        Some(n) => Some(n as int),
        None => None,
    }
}

/// Counts consecutive user-verification failures and locks verification out
/// for a fixed period once a threshold is reached.
pub struct LockoutTracker {
    consecutive_failures: u32,
    locked_until: Option<u128>,
    max_failures: u32,
    lockout_duration: u128,
    clock: MonotonicClock,
}

impl View for LockoutTracker {
    type V = LockoutState;

    closed spec fn view(&self) -> LockoutState {
        LockoutState {
            failures: self.consecutive_failures as nat,
            locked_until: nanos_opt(self.locked_until),
            max_failures: self.max_failures as nat,
            lockout: self.lockout_duration as nat,
        }
    }
}

impl LockoutTracker {
    /// The last time this tracker's clock was read and remembered (by a
    /// failure recorded through `record_failure`); later readings are never
    /// earlier.
    pub closed spec fn clock_reading(&self) -> u64 {
        self.clock.last_reading()
    }

    /// The lockout period is at most `u64::MAX` seconds, and a lockout ends
    /// at most that long after a `u64` time.
    #[verifier::type_invariant]
    spec fn inv(self) -> bool {
        &&& self.lockout_duration <= max_duration_nanos()
        &&& self.locked_until matches Some(u) ==> u <= u64::MAX + max_duration_nanos()
    }

    /// A tracker that locks out for `lockout_secs` seconds after
    /// `max_failures` consecutive failures.
    pub fn new(max_failures: u32, lockout_secs: u64) -> (t: Self)
        ensures
            t@ == (LockoutState {
                failures: 0,
                locked_until: None,
                max_failures: max_failures as nat,
                lockout: secs_to_nanos(lockout_secs) as nat,
            }),
            t.clock_reading() == 0,
    {
        LockoutTracker {
            consecutive_failures: 0,
            locked_until: None,
            max_failures,
            lockout_duration: seconds_as_nanos(lockout_secs),
            clock: MonotonicClock::start(),
        }
    }

    /// The current time on this tracker's clock (nanoseconds since it was
    /// created): never earlier than its last remembered reading.
    pub fn now(&self) -> (t: u64)
        ensures
            t >= self.clock_reading(),
    {
        self.clock.peek()
    }

    /// Number of consecutive failures recorded.
    pub fn consecutive_failures(&self) -> (n: u32)
        ensures
            n == self@.failures,
    {
        self.consecutive_failures
    }

    /// Remaining lockout time in nanoseconds if locked at time `now`
    /// (nanoseconds on this tracker's clock), `None` if verification may proceed.
    pub fn check_locked_at(&self, now: u64) -> (r: Option<u128>)
        ensures
            nanos_opt(r) == remaining_lockout(self@, now),
            r matches Some(d) ==> self@.locked_until matches Some(u) && d + now == u,
            (r is Some) <==> (self@.locked_until matches Some(u) && now < u),
    {
        match self.locked_until {
            Some(until) => if (now as u128) < until {
                Some(until - now as u128)
            } else {
                None
            },
            None => None,
        }
    }

    /// Remaining lockout time in nanoseconds if locked now, `None` if
    /// verification may proceed. "Now" is never earlier than the clock's last
    /// remembered reading, so right after the failure that locked, the time
    /// left is at most the lockout period.
    pub fn check_locked(&self) -> (r: Option<u128>)
        ensures
            exists|now: u64| now >= self.clock_reading() && nanos_opt(r) == remaining_lockout(self@, now),
            self@.locked_until is None ==> r is None,
            r matches Some(d) ==> self@.locked_until matches Some(u) && d + self.clock_reading() <= u,
    {
        let now = self.clock.peek();
        self.check_locked_at(now)
    }

    /// Records a failure at time `now` (nanoseconds on this tracker's clock).
    pub fn record_failure_at(&mut self, now: u64)
        requires
            old(self)@.failures < u32::MAX,
        ensures
            final(self)@ == failure_step(old(self)@, now),
            final(self).clock_reading() == old(self).clock_reading(),
            final(self)@.failures == old(self)@.failures + 1,
            old(self)@.failures + 1 >= old(self)@.max_failures ==> final(self)@.locked_until == Some(
                now + old(self)@.lockout,
            ),
            old(self)@.failures + 1 < old(self)@.max_failures ==> final(self)@.locked_until == old(
                self,
            )@.locked_until,
            final(self)@.max_failures == old(self)@.max_failures,
            final(self)@.lockout == old(self)@.lockout,
    {
        proof {
            use_type_invariant(&*self);
        }
        self.consecutive_failures = self.consecutive_failures + 1;
        if self.consecutive_failures >= self.max_failures {
            self.locked_until = Some(now as u128 + self.lockout_duration);
        }
    }

    /// Records a failure now; the time of the failure is remembered as the
    /// clock's last reading.
    pub fn record_failure(&mut self)
        requires
            old(self)@.failures < u32::MAX,
        ensures
            final(self).clock_reading() >= old(self).clock_reading(),
            final(self)@ == failure_step(old(self)@, final(self).clock_reading()),
    {
        proof {
            use_type_invariant(&*self);
        }
        let (clock, now) = self.clock.read();
        self.clock = clock;
        self.record_failure_at(now);
    }

    /// Records a success: clears the failure count and any lockout.
    pub fn record_success(&mut self)
        ensures
            final(self)@ == success_step(old(self)@),
            final(self).clock_reading() == old(self).clock_reading(),
            final(self)@.failures == 0,
            final(self)@.locked_until is None,
            final(self)@.max_failures == old(self)@.max_failures,
            final(self)@.lockout == old(self)@.lockout,
    {
        proof {
            use_type_invariant(&*self);
        }
        self.consecutive_failures = 0;
        self.locked_until = None;
    }
}

/// Law: once a failure at `now` reaches the threshold, at any later time
/// the lockout that remains is at most the lockout period.
pub proof fn lemma_lockout_left_at_most_period(s: LockoutState, now: u64, t: u64)
    requires
        s.failures + 1 >= s.max_failures,
        now <= t,
    ensures
        remaining_lockout(failure_step(s, now), t) matches Some(d) ==> d <= s.lockout,
{
}

/// Law: after a success, verification is never locked out, at any time.
pub proof fn lemma_success_unlocks(s: LockoutState, now: u64)
    ensures
        remaining_lockout(success_step(s), now) is None,
        success_step(s).failures == 0,
{
}

/// Law: a failure below the threshold neither starts nor changes a lockout.
pub proof fn lemma_failure_below_threshold_keeps_lock(s: LockoutState, now: u64)
    requires
        s.failures + 1 < s.max_failures,
    ensures
        failure_step(s, now).locked_until == s.locked_until,
        failure_step(s, now).failures == s.failures + 1,
{
}

/// Law: a failure that reaches the threshold locks verification out for the
/// whole lockout period from the time of the failure, and no longer.
pub proof fn lemma_failure_at_threshold_locks(s: LockoutState, now: u64, t: u64)
    requires
        s.failures + 1 >= s.max_failures,
    ensures
        now <= t < now + s.lockout ==> remaining_lockout(failure_step(s, now), t) == Some(
            now + s.lockout - t,
        ),
        t >= now + s.lockout ==> remaining_lockout(failure_step(s, now), t) is None,
{
}

/// Law: starting with no failures and no lockout, `n` consecutive failures
/// leave `n` counted, and lock out (until the last failure plus the lockout
/// period) exactly when at least one failure occurred and the threshold was
/// reached.
pub proof fn lemma_consecutive_failures(s: LockoutState, times: Seq<u64>)
    requires
        s.failures == 0,
        s.locked_until is None,
    ensures
        failures_run(s, times).failures == times.len(),
        failures_run(s, times).max_failures == s.max_failures,
        failures_run(s, times).lockout == s.lockout,
        failures_run(s, times).locked_until == if times.len() > 0 && times.len() >= s.max_failures {
            Some(times.last() + s.lockout)
        } else {
            None
        },
    decreases times.len(),
{
    if times.len() > 0 {
        lemma_consecutive_failures(s, times.drop_last());
    }
}

/// Law: after as many consecutive failures as the threshold, verification is
/// locked out at every moment of the lockout period that follows the last one.
pub proof fn lemma_threshold_failures_lock_out(s: LockoutState, times: Seq<u64>, t: u64)
    requires
        s.failures == 0,
        s.locked_until is None,
        times.len() > 0,
        times.len() >= s.max_failures,
        times.last() <= t,
        t < times.last() + s.lockout,
    ensures
        remaining_lockout(failures_run(s, times), t) == Some(times.last() + s.lockout - t),
{
    lemma_consecutive_failures(s, times);
}

/// Law: fewer consecutive failures than the threshold never lock out.
pub proof fn lemma_few_failures_never_lock(s: LockoutState, times: Seq<u64>, t: u64)
    requires
        s.failures == 0,
        s.locked_until is None,
        times.len() < s.max_failures,
    ensures
        remaining_lockout(failures_run(s, times), t) is None,
{
    lemma_consecutive_failures(s, times);
}

} // verus!
