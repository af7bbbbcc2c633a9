//! Time sources for the rate limiter.
//!
//! A [`Clock`] supplies the current time as an opaque tick count: an integer
//! that is expected to be non-decreasing across calls. Two implementations are
//! provided: [`FixedClock`], whose reading is set by the caller (used by
//! deterministic tests), and [`UnixEpochMillisecondsClock`], which reads the
//! system time.

use std::sync::Arc;
use std::sync::Mutex;

use vstd::prelude::*;

use crate::error::RateLimiterError;

verus! {

/// `std::sync::Mutex` declared for Verus; values of it are opaque here. The
/// rate limiter holds its shared clock behind one and locks it only through
/// [`lock_clock`].
#[verifier::external_type_specification]
#[verifier::external_body]
#[verifier::reject_recursive_types(T)]
pub struct ExMutex<T: ?Sized>(Mutex<T>);

/// `std::sync::MutexGuard` declared for Verus; values of it are opaque here.
#[verifier::external_type_specification]
#[verifier::external_body]
#[verifier::reject_recursive_types(T)]
pub struct ExMutexGuard<'a, T: ?Sized + 'a>(std::sync::MutexGuard<'a, T>);

/// Relies on `std::sync::MutexGuard`'s `Deref`: the guard hands out a
/// reference to the guarded value. Nothing is assumed about that value.
pub assume_specification<'a, 'b, T: ?Sized>[ <std::sync::MutexGuard<'a, T> as core::ops::Deref>::deref ](
    g: &'b std::sync::MutexGuard<'a, T>,
) -> &'b T;

/// `time::OffsetDateTime` declared for Verus; values of it are opaque here.
#[verifier::external_type_specification]
#[verifier::external_body]
pub struct ExOffsetDateTime(time::OffsetDateTime);

/// Relies on `time::OffsetDateTime::now_utc`: returns the current date and
/// time. The reading depends on the system clock, so nothing is assumed of it.
pub assume_specification[ time::OffsetDateTime::now_utc ]() -> time::OffsetDateTime;

/// Relies on `time::OffsetDateTime::unix_timestamp_nanos`: returns the
/// nanoseconds between the Unix epoch and the given instant. The crate caps
/// its dates at years -9999 to 9999 (-999,999 to 999,999 with its
/// `large-dates` feature); even a million years is under 3.2 * 10^13
/// seconds, so the count stays within 10^23 nanoseconds each way.
pub assume_specification[ time::OffsetDateTime::unix_timestamp_nanos ](
    d: time::OffsetDateTime,
) -> (r: i128)
    ensures
        -100_000_000_000_000_000_000_000 <= r <= 100_000_000_000_000_000_000_000,
;

/// A tick count read from a [`Clock`]: a plain comparable integer, not a
/// formatted wall-clock time.
#[derive(Debug, Clone, Copy)]
pub struct Ticks(pub i64);

/// A source of tick counts. The rate limiter only assumes that readings are
/// plain integers; every decision it makes is specified for an arbitrary
/// reading.
pub trait Clock {
    /// The current tick count.
    fn ticks_elapsed(&self) -> Ticks;
}

/// A clock that returns exactly the value stored in it; tests set `value`
/// between calls to simulate the passage of time.
pub struct FixedClock {
    pub value: Ticks,
}

impl Clock for FixedClock {
    fn ticks_elapsed(&self) -> (r: Ticks)
        ensures
            r.0 == self.value.0,
    {
        self.value
    }
}

/// A clock that reads the system time and reports it as milliseconds since
/// the Unix epoch. Instants outside the range of an `i64` millisecond count
/// are clamped to the nearest representable tick.
pub struct UnixEpochMillisecondsClock {}

/// Milliseconds from a nanosecond count: division by one million, truncated
/// toward zero, clamped to the `i64` range.
pub open spec fn spec_millis_of_nanos(nanos: i128) -> i64 {
    let n = nanos as int;
    let truncated: int = if n >= 0 {
        n / 1_000_000
    } else {
        -((-n) / 1_000_000)
    };
    if truncated > i64::MAX {
        i64::MAX
    } else if truncated < i64::MIN {
        i64::MIN
    } else {
        truncated as i64
    }
}

/// Truncates a nanosecond count to whole milliseconds, clamping at the
/// `i64` bounds.
pub fn millis_from_nanos(nanos: i128) -> (r: i64)
    ensures
        r == spec_millis_of_nanos(nanos),
{
    if nanos >= 0 {
        let q: u128 = (nanos as u128) / 1_000_000u128;
        if q > (i64::MAX as u128) {
            i64::MAX
        } else {
            q as i64
        }
    } else {
        let magnitude: u128 = if nanos == i128::MIN {
            (i128::MAX as u128) + 1u128
        } else {
            (-nanos) as u128
        };
        proof {
            assert(magnitude as int == -(nanos as int));
        }
        let q: u128 = magnitude / 1_000_000u128;
        if q > (i64::MAX as u128) {
            i64::MIN
        } else {
            -(q as i64)
        }
    }
}

/// A nanosecond count within the time crate's representable range truncates
/// to a millisecond count well inside the `i64` bounds, so no clamping
/// happens for any reading the system clock can produce.
proof fn lemma_millis_in_range(nanos: i128)
    requires
        -100_000_000_000_000_000_000_000 <= nanos <= 100_000_000_000_000_000_000_000,
    ensures
        -100_000_000_000_000_000 <= spec_millis_of_nanos(nanos) <= 100_000_000_000_000_000,
{
    let n = nanos as int;
    let bound: int = 100_000_000_000_000_000_000_000;
    assert(bound / 1_000_000 == 100_000_000_000_000_000);
    if n >= 0 {
        vstd::arithmetic::div_mod::lemma_div_is_ordered(n, bound, 1_000_000);
        vstd::arithmetic::div_mod::lemma_div_pos_is_pos(n, 1_000_000);
    } else {
        vstd::arithmetic::div_mod::lemma_div_is_ordered(-n, bound, 1_000_000);
        vstd::arithmetic::div_mod::lemma_div_pos_is_pos(-n, 1_000_000);
    }
}

impl Clock for UnixEpochMillisecondsClock {
    fn ticks_elapsed(&self) -> (r: Ticks)
        ensures
            exists|nanos: i128|
                {
                    &&& -100_000_000_000_000_000_000_000 <= nanos
                        <= 100_000_000_000_000_000_000_000
                    &&& r.0 == spec_millis_of_nanos(nanos)
                },
            -100_000_000_000_000_000 <= r.0 <= 100_000_000_000_000_000,
    {
        let nanos: i128 = time::OffsetDateTime::now_utc().unix_timestamp_nanos();
        let millis = millis_from_nanos(nanos);
        proof {
            lemma_millis_in_range(nanos);
        }
        Ticks(millis)
    }
}

/// Relies on `std::sync::Mutex::lock`: returns the guard on success, and
/// [`RateLimiterError::ThreadingProblem`] when the lock is poisoned.
#[verifier::external_body]
fn lock_clock<'a, C: Clock>(clock: &'a Arc<Mutex<C>>) -> Result<
    std::sync::MutexGuard<'a, C>,
    RateLimiterError,
> {
    match clock.lock() {
        Ok(guard) => Ok(guard),
        Err(_) => Err(RateLimiterError::ThreadingProblem),
    }
}

/// Locks the shared clock, takes one reading from it, and releases the lock.
/// Nothing is assumed about the reading itself.
pub(crate) fn read_shared_clock<C: Clock>(clock: &Arc<Mutex<C>>) -> Result<
    Ticks,
    RateLimiterError,
> {
    match lock_clock(clock) {
        Ok(guard) => Ok(core::ops::Deref::deref(&guard).ticks_elapsed()),
        Err(e) => Err(e),
    }
}

} // verus!
