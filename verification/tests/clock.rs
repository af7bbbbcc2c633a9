use rate_limiter::clock::Clock;
use rate_limiter::clock::FixedClock;
use rate_limiter::clock::Ticks;
use rate_limiter::clock::UnixEpochMillisecondsClock;
use rate_limiter::clock::millis_from_nanos;

#[test]
fn unix_clock_works() {
    let clock = UnixEpochMillisecondsClock {};
    // Approximate timestamp at the time of writing this code
    assert!(clock.ticks_elapsed().0 > 1_669_132_053_000);
}

#[test]
fn millis_from_nanos_truncates_toward_zero() {
    assert_eq!(millis_from_nanos(0), 0);
    assert_eq!(millis_from_nanos(999_999), 0);
    assert_eq!(millis_from_nanos(1_500_000), 1);
    assert_eq!(millis_from_nanos(-999_999), 0);
    assert_eq!(millis_from_nanos(-1_500_000), -1);
    assert_eq!(
        millis_from_nanos(1_669_132_053_000_000_000),
        1_669_132_053_000
    );
}

#[test]
fn millis_from_nanos_clamps_at_the_i64_bounds() {
    assert_eq!(millis_from_nanos(i128::MAX), i64::MAX);
    assert_eq!(millis_from_nanos(i128::MIN), i64::MIN);
}

#[test]
fn fixed_clock_returns_set_value() {
    let mut clock = FixedClock { value: Ticks(42) };
    assert_eq!(clock.ticks_elapsed().0, 42);
    clock.value = Ticks(43);
    assert_eq!(clock.ticks_elapsed().0, 43);
}
