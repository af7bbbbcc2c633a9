use std::sync::Arc;
use std::sync::Mutex;

use rate_limiter::clock::FixedClock;
use rate_limiter::clock::Ticks;
use rate_limiter::rate_limiter::RateLimiter;
use rate_limiter::rate_limiter::RequestProcessingResponse;
use rate_limiter::rate_limiter::SourceAddress;

#[test]
fn requests_are_independent() {
    let clock = Arc::new(Mutex::new(FixedClock { value: Ticks(100) }));
    let mut rate_limiter = RateLimiter::new(clock, 2, 1);

    let address = SourceAddress::new("1.1.1.1");
    assert_eq!(
        rate_limiter.try_add_request(address.clone()).unwrap(),
        RequestProcessingResponse::Allow,
        "first request is allowed"
    );
    assert_eq!(
        rate_limiter.try_add_request(address.clone()).unwrap(),
        RequestProcessingResponse::Allow,
        "second request is allowed"
    );
    assert_eq!(
        rate_limiter.try_add_request(address.clone()).unwrap(),
        RequestProcessingResponse::Deny,
        "third request is denied"
    );

    let address_2 = SourceAddress::new("2.2.2.2");
    assert_eq!(
        rate_limiter.try_add_request(address_2).unwrap(),
        RequestProcessingResponse::Allow,
        "a request on another address is allowed"
    );
}

#[test]
fn passage_of_time_means_queue_clears_up() {
    let address = SourceAddress::new("1.1.1.1");
    let clock = Arc::new(Mutex::new(FixedClock { value: Ticks(1) }));
    let mut rate_limiter = RateLimiter::new(Arc::clone(&clock), 2, 1);

    assert_eq!(
        rate_limiter.try_add_request(address.clone()).unwrap(),
        RequestProcessingResponse::Allow,
        "request #1 is allowed at time 1"
    );
    assert_eq!(
        rate_limiter.try_add_request(address.clone()).unwrap(),
        RequestProcessingResponse::Allow,
        "request #2 is allowed at time 1"
    );
    assert_eq!(
        rate_limiter.try_add_request(address.clone()).unwrap(),
        RequestProcessingResponse::Deny,
        "request #3 is not allowed at time 1"
    );

    clock.lock().unwrap().value = Ticks(2);
    assert_eq!(
        rate_limiter.try_add_request(address.clone()).unwrap(),
        RequestProcessingResponse::Deny,
        "request #4 is not allowed at time 2 since slots are used"
    );

    clock.lock().unwrap().value = Ticks(3);
    assert_eq!(
        rate_limiter.try_add_request(address.clone()).unwrap(),
        RequestProcessingResponse::Allow,
        "request #5 is allowed at time 3 since time passed and two slots freed"
    );

    clock.lock().unwrap().value = Ticks(4);
    assert_eq!(
        rate_limiter.try_add_request(address.clone()).unwrap(),
        RequestProcessingResponse::Allow,
        "request #6 is allowed at time 4 since one slot is free"
    );
    assert_eq!(
        rate_limiter.try_add_request(address.clone()).unwrap(),
        RequestProcessingResponse::Deny,
        "request #7 is not allowed at time 4 since no slots are free"
    );

    clock.lock().unwrap().value = Ticks(5);
    assert_eq!(
        rate_limiter.try_add_request(address.clone()).unwrap(),
        RequestProcessingResponse::Allow,
        "request #7 is allowed at time 5 since one slot is free"
    );
}

#[test]
fn ticks_work() {
    let clock = Arc::new(Mutex::new(FixedClock { value: Ticks(1) }));
    let mut rate_limiter = RateLimiter::new(clock.clone(), 1, 100);

    let address = SourceAddress::new("1.1.1.1");
    assert_eq!(
        rate_limiter.try_add_request(address.clone()).unwrap(),
        RequestProcessingResponse::Allow,
        "request #1 is allowed"
    );

    clock.lock().unwrap().value = Ticks(100);
    assert_eq!(
        rate_limiter.try_add_request(address.clone()).unwrap(),
        RequestProcessingResponse::Deny,
        "request #2 is not allowed at time 100"
    );

    clock.lock().unwrap().value = Ticks(101);
    assert_eq!(
        rate_limiter.try_add_request(address.clone()).unwrap(),
        RequestProcessingResponse::Allow,
        "request #3 is again allowed at time 101"
    );
}

#[test]
fn zero_limit_denies_every_request() {
    let clock = Arc::new(Mutex::new(FixedClock { value: Ticks(1) }));
    let mut rate_limiter = RateLimiter::new(Arc::clone(&clock), 0, 1);

    let address = SourceAddress::new("1.1.1.1");
    assert_eq!(
        rate_limiter.try_add_request(address.clone()).unwrap(),
        RequestProcessingResponse::Deny,
        "a brand-new key is denied when the limit is zero"
    );

    clock.lock().unwrap().value = Ticks(50);
    assert_eq!(
        rate_limiter.try_add_request(address).unwrap(),
        RequestProcessingResponse::Deny,
        "the same key is denied again however much time passes"
    );

    let other = SourceAddress::new("2.2.2.2");
    assert_eq!(
        rate_limiter.try_add_request(other).unwrap(),
        RequestProcessingResponse::Deny,
        "every other key is denied as well"
    );
}

#[test]
fn explicit_tick_scenario() {
    let clock = Arc::new(Mutex::new(FixedClock { value: Ticks(0) }));
    let mut rate_limiter = RateLimiter::new(clock, 2, 1);

    let address = SourceAddress::new("1.1.1.1");
    assert_eq!(
        rate_limiter.try_add_request_at(address.clone(), Ticks(1)),
        RequestProcessingResponse::Allow,
        "request #1 at tick 1 fills the first slot"
    );
    assert_eq!(
        rate_limiter.try_add_request_at(address.clone(), Ticks(1)),
        RequestProcessingResponse::Allow,
        "request #2 at tick 1 fills the second slot"
    );
    assert_eq!(
        rate_limiter.try_add_request_at(address.clone(), Ticks(1)),
        RequestProcessingResponse::Deny,
        "request #3 at tick 1 finds the queue full"
    );
    assert_eq!(
        rate_limiter.try_add_request_at(address.clone(), Ticks(2)),
        RequestProcessingResponse::Deny,
        "at tick 2 the entries from tick 1 are not yet evictable"
    );
    assert_eq!(
        rate_limiter.try_add_request_at(address.clone(), Ticks(3)),
        RequestProcessingResponse::Allow,
        "at tick 3 both stale entries are evicted"
    );
    assert_eq!(
        rate_limiter.try_add_request_at(address.clone(), Ticks(4)),
        RequestProcessingResponse::Allow,
        "at tick 4 one slot is free"
    );
    assert_eq!(
        rate_limiter.try_add_request_at(address.clone(), Ticks(4)),
        RequestProcessingResponse::Deny,
        "a second request at tick 4 finds the queue full again"
    );
    assert_eq!(
        rate_limiter.try_add_request_at(address, Ticks(5)),
        RequestProcessingResponse::Allow,
        "at tick 5 the entry from tick 3 becomes evictable"
    );
}

#[test]
fn replaying_the_same_sequence_gives_the_same_decisions() {
    let ticks_sequence = [1i64, 1, 1, 2, 3, 4, 4, 5, 100, 100, 101];

    let clock_a = Arc::new(Mutex::new(FixedClock { value: Ticks(0) }));
    let mut limiter_a = RateLimiter::new(clock_a, 2, 1);
    let clock_b = Arc::new(Mutex::new(FixedClock { value: Ticks(0) }));
    let mut limiter_b = RateLimiter::new(clock_b, 2, 1);

    let address = SourceAddress::new("1.1.1.1");
    let mut decisions_a = Vec::new();
    let mut decisions_b = Vec::new();
    for t in ticks_sequence {
        decisions_a.push(limiter_a.try_add_request_at(address.clone(), Ticks(t)));
        decisions_b.push(limiter_b.try_add_request_at(address.clone(), Ticks(t)));
    }
    assert_eq!(
        decisions_a, decisions_b,
        "the same requests against the same clock readings decide the same way"
    );
}

#[test]
fn zero_tick_window_evicts_in_the_same_tick() {
    let clock = Arc::new(Mutex::new(FixedClock { value: Ticks(5) }));
    let mut rate_limiter = RateLimiter::new(clock, 1, 0);

    let address = SourceAddress::new("1.1.1.1");
    assert_eq!(
        rate_limiter.try_add_request(address.clone()).unwrap(),
        RequestProcessingResponse::Allow,
        "the first request is admitted"
    );
    assert_eq!(
        rate_limiter.try_add_request(address).unwrap(),
        RequestProcessingResponse::Allow,
        "with a zero window the previous entry is evictable in the same tick"
    );
}
