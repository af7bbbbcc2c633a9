//! The admission-control decision engine.
//!
//! A [`RateLimiter`] decides, per request key, whether an event is admitted
//! (`Allow`) or rejected (`Deny`). For each key it keeps the ordered tick
//! counts of admitted events that have not yet been evicted; an entry recorded
//! at tick `t` is evictable once `t + limit * ticks <= now`. A request is
//! admitted exactly when, after evicting stale entries, the key holds fewer
//! than `limit` entries.
//!
//! The whole decision procedure is specified by three spec functions:
//! [`evict_prefix`] (which entries survive eviction), [`spec_decision`] (the
//! verdict) and [`spec_next_queue`] (the queue afterwards). The public
//! operations promise exactly these outcomes.

use std::collections::VecDeque;
use std::sync::Arc;
use std::sync::Mutex;

use vstd::prelude::*;

use crate::clock::Clock;
use crate::clock::Ticks;
use crate::clock::read_shared_clock;
use crate::error::RateLimiterError;
use crate::ledger::Ledger;
use crate::ledger::stamps;

verus! {

/// The tick count at which one event was admitted.
#[derive(Debug, Clone, Copy)]
pub struct RequestTimestamp {
    timestamp: i64,
}

impl View for RequestTimestamp {
    type V = i64;

    closed spec fn view(&self) -> i64 {
        self.timestamp
    }
}

impl RequestTimestamp {
    /// Records the given tick count as an admission timestamp.
    pub fn new(ticks: Ticks) -> (r: RequestTimestamp)
        ensures
            r@ == ticks.0,
    {
        RequestTimestamp { timestamp: ticks.0 }
    }
}

/// The key under which admission state is partitioned: an opaque client
/// identity, compared by exact string equality.
#[derive(Debug, Default, Hash, Eq, Clone)]
pub struct SourceAddress(String);

impl View for SourceAddress {
    type V = Seq<char>;

    closed spec fn view(&self) -> Seq<char> {
        self.0@
    }
}

impl PartialEq for SourceAddress {
    fn eq(&self, other: &SourceAddress) -> (r: bool) {
        self.0 == other.0
    }
}

impl vstd::std_specs::cmp::PartialEqSpecImpl for SourceAddress {
    open spec fn obeys_eq_spec() -> bool {
        true
    }

    open spec fn eq_spec(&self, other: &SourceAddress) -> bool {
        self@ == other@
    }
}

impl SourceAddress {
    /// Wraps the given string, unchanged: the core performs no normalization.
    pub fn new(address: &str) -> (r: SourceAddress)
        ensures
            r@ == address@,
    {
        SourceAddress(address.to_owned())
    }
}

/// The verdict of one admission request.
#[derive(Debug, Eq, PartialEq)]
pub enum RequestProcessingResponse {
    Allow,
    Deny,
}

/// What one call of [`RateLimiter::try_add_request`] yields: a verdict, or
/// the mutual-exclusion failure.
pub type RequestProcessingResult = Result<RequestProcessingResponse, RateLimiterError>;

/// The span of ticks during which an admitted event still counts against
/// capacity: `limit * ticks`.
pub open spec fn spec_window(limit: nat, ticks: nat) -> int {
    (limit * ticks) as int
}

/// Whether an entry recorded at tick `ts` is evictable at tick `now`.
pub open spec fn stale(ts: i64, window: int, now: i64) -> bool {
    ts + window <= now
}

/// The queue left after dropping stale entries from the front. Only the
/// oldest entries are examined: eviction stops at the first entry that is not
/// stale, so later stale entries (which cannot occur while timestamps are
/// recorded in non-decreasing order) would survive.
pub open spec fn evict_prefix(q: Seq<i64>, window: int, now: i64) -> Seq<i64>
    decreases q.len(),
{
    if q.len() > 0 && stale(q[0], window, now) {
        evict_prefix(q.drop_first(), window, now)
    } else {
        q
    }
}

/// The verdict for a key whose queue is `q` at tick `now`: admitted exactly
/// when, after eviction, the key holds fewer than `limit` entries.
pub open spec fn spec_decision(q: Seq<i64>, limit: nat, ticks: nat, now: i64)
    -> RequestProcessingResponse {
    if evict_prefix(q, spec_window(limit, ticks), now).len() < limit {
        RequestProcessingResponse::Allow
    } else {
        RequestProcessingResponse::Deny
    }
}

/// The key's queue after one request at tick `now`: stale entries are
/// evicted, and `now` is appended exactly when the request is admitted.
pub open spec fn spec_next_queue(q: Seq<i64>, limit: nat, ticks: nat, now: i64) -> Seq<i64> {
    let evicted = evict_prefix(q, spec_window(limit, ticks), now);
    if evicted.len() < limit {
        evicted.push(now)
    } else {
        evicted
    }
}

/// The decision engine: one shared clock, the two configuration parameters
/// fixed at construction, and the per-key ledger of admitted timestamps.
#[verifier::reject_recursive_types(C)]
pub struct RateLimiter<C> where C: Clock {
    clock: Arc<Mutex<C>>,
    limit: usize,
    ticks: usize,
    requests: Ledger,
}

impl<C> RateLimiter<C> where C: Clock {
    /// The per-key capacity fixed at construction.
    pub closed spec fn spec_limit(&self) -> nat {
        self.limit as nat
    }

    /// The slot duration, in clock ticks, fixed at construction.
    pub closed spec fn spec_ticks(&self) -> nat {
        self.ticks as nat
    }

    /// The timestamps currently held for key `k`, oldest first.
    pub closed spec fn spec_queue(&self, k: Seq<char>) -> Seq<i64> {
        self.requests.spec_queue(k)
    }

    /// Well-formedness: the ledger stores each key once, the eviction window
    /// fits in a tick, and no key's queue exceeds the capacity.
    pub closed spec fn wf(&self) -> bool {
        &&& self.requests.wf()
        &&& spec_window(self.spec_limit(), self.spec_ticks()) <= i64::MAX
        &&& forall|k: Seq<char>| #[trigger] self.spec_queue(k).len() <= self.spec_limit()
    }

    /// The capacity invariant, exposed: a well-formed limiter never holds
    /// more than `limit` non-evicted timestamps for any key.
    pub proof fn lemma_wf_capacity(&self, k: Seq<char>)
        requires
            self.wf(),
        ensures
            self.spec_queue(k).len() <= self.spec_limit(),
    {
    }

    /// Builds a limiter with an empty ledger. The window `limit * ticks`
    /// must fit in a tick count, since it is added to timestamps.
    pub fn new(clock: Arc<Mutex<C>>, limit: usize, ticks: usize) -> (r: RateLimiter<C>)
        requires
            (limit as int) * (ticks as int) <= i64::MAX,
        ensures
            r.wf(),
            r.spec_limit() == limit as nat,
            r.spec_ticks() == ticks as nat,
            forall|k: Seq<char>| r.spec_queue(k) == Seq::<i64>::empty(),
    {
        RateLimiter { clock, limit, ticks, requests: Ledger::new() }
    }

    /// Reads the shared clock and decides admission for `address` at that
    /// reading. Nothing is assumed about the reading, so the contract states
    /// the outcome for whatever tick came back; with the clock poisoned, the
    /// error is surfaced and the limiter is untouched.
    pub fn try_add_request(&mut self, address: SourceAddress) -> (r: RequestProcessingResult)
        requires
            old(self).wf(),
        ensures
            final(self).wf(),
            final(self).spec_limit() == old(self).spec_limit(),
            final(self).spec_ticks() == old(self).spec_ticks(),
            (match r {
                Ok(resp) => exists|now: i64|
                    {
                        &&& resp == spec_decision(
                            old(self).spec_queue(address@),
                            old(self).spec_limit(),
                            old(self).spec_ticks(),
                            now,
                        )
                        &&& final(self).spec_queue(address@) == spec_next_queue(
                            old(self).spec_queue(address@),
                            old(self).spec_limit(),
                            old(self).spec_ticks(),
                            now,
                        )
                        &&& forall|k: Seq<char>|
                            k != address@ ==> final(self).spec_queue(k) == old(self).spec_queue(k)
                    },
                Err(e) => e == RateLimiterError::ThreadingProblem && *final(self) == *old(self),
            }),
    {
        let t = match read_shared_clock(&self.clock) {
            Ok(t) => t,
            Err(e) => {
                return Err(e);
            },
        };
        let response = self.try_add_request_at(address, t);
        Ok(response)
    }

    /// Decides admission for `address` as of tick `now`: stale entries are
    /// evicted from the key's queue, the request is admitted exactly when
    /// fewer than `limit` entries remain, and no other key is touched.
    pub fn try_add_request_at(&mut self, address: SourceAddress, now: Ticks) -> (r:
        RequestProcessingResponse)
        requires
            old(self).wf(),
        ensures
            final(self).wf(),
            final(self).spec_limit() == old(self).spec_limit(),
            final(self).spec_ticks() == old(self).spec_ticks(),
            r == spec_decision(
                old(self).spec_queue(address@),
                old(self).spec_limit(),
                old(self).spec_ticks(),
                now.0,
            ),
            final(self).spec_queue(address@) == spec_next_queue(
                old(self).spec_queue(address@),
                old(self).spec_limit(),
                old(self).spec_ticks(),
                now.0,
            ),
            forall|k: Seq<char>|
                k != address@ ==> final(self).spec_queue(k) == old(self).spec_queue(k),
    {
        let now_stamp = RequestTimestamp::new(now);
        let taken = self.requests.take(&address);
        let r = match taken {
            Some(queue) => self.add_to_existing_requests(address, now_stamp, queue),
            None => {
                proof {
                    old(self).requests.lemma_absent_empty(address@);
                }
                self.add_request_for_new_source(address, now_stamp)
            },
        };
        proof {
            crate::laws::lemma_capacity_preserved(
                old(self).spec_queue(address@),
                old(self).spec_limit(),
                old(self).spec_ticks(),
                now.0,
            );
            assert forall|k: Seq<char>| #[trigger] self.spec_queue(k).len()
                <= self.spec_limit() by {
                if k != address@ {
                    assert(self.spec_queue(k) == old(self).spec_queue(k));
                    assert(old(self).spec_queue(k).len() <= old(self).spec_limit());
                }
            }
        }
        r
    }

    /// The path for a key that already holds entries: evict, then admit when
    /// a slot is free, and store the queue back either way.
    fn add_to_existing_requests(
        &mut self,
        address: SourceAddress,
        now: RequestTimestamp,
        requests: VecDeque<RequestTimestamp>,
    ) -> (r: RequestProcessingResponse)
        requires
            old(self).requests.wf(),
            !old(self).requests.spec_contains(address@),
            spec_window(old(self).spec_limit(), old(self).spec_ticks()) <= i64::MAX,
        ensures
            final(self).requests.wf(),
            final(self).spec_limit() == old(self).spec_limit(),
            final(self).spec_ticks() == old(self).spec_ticks(),
            r == spec_decision(
                stamps(requests@),
                old(self).spec_limit(),
                old(self).spec_ticks(),
                now@,
            ),
            final(self).spec_queue(address@) == spec_next_queue(
                stamps(requests@),
                old(self).spec_limit(),
                old(self).spec_ticks(),
                now@,
            ),
            forall|k: Seq<char>|
                k != address@ ==> final(self).spec_queue(k) == old(self).spec_queue(k),
    {
        let mut requests = requests;
        let ghost orig = stamps(requests@);
        self.check_if_slots_can_be_freed(&now, &mut requests);
        let allowed = requests.len() < self.limit;
        if allowed {
            let ghost evicted = stamps(requests@);
            requests.push_back(now);
            proof {
                assert(stamps(requests@) =~= evicted.push(now@));
            }
        }
        self.requests.put(address, requests);
        if allowed {
            RequestProcessingResponse::Allow
        } else {
            RequestProcessingResponse::Deny
        }
    }

    /// Prefix eviction: pops entries from the front of the queue while the
    /// front entry is stale, and stops at the first one that is not.
    fn check_if_slots_can_be_freed(
        &self,
        now: &RequestTimestamp,
        requests: &mut VecDeque<RequestTimestamp>,
    )
        requires
            spec_window(self.spec_limit(), self.spec_ticks()) <= i64::MAX,
        ensures
            stamps(final(requests)@) == evict_prefix(
                stamps(old(requests)@),
                spec_window(self.spec_limit(), self.spec_ticks()),
                now@,
            ),
    {
        loop
            invariant
                spec_window(self.spec_limit(), self.spec_ticks()) <= i64::MAX,
                evict_prefix(
                    stamps(requests@),
                    spec_window(self.spec_limit(), self.spec_ticks()),
                    now@,
                ) == evict_prefix(
                    stamps(old(requests)@),
                    spec_window(self.spec_limit(), self.spec_ticks()),
                    now@,
                ),
            ensures
                stamps(requests@) == evict_prefix(
                    stamps(old(requests)@),
                    spec_window(self.spec_limit(), self.spec_ticks()),
                    now@,
                ),
            decreases requests@.len(),
        {
            if requests.len() == 0 {
                proof {
                    assert(stamps(requests@) =~= Seq::<i64>::empty());
                }
                break;
            }
            let discard = self.can_be_discarded(Some(&requests[0]), now);
            proof {
                assert(stamps(requests@)[0] == requests@[0]@);
            }
            if !discard {
                break;
            }
            let ghost prev = stamps(requests@);
            requests.pop_front();
            proof {
                assert(stamps(requests@) =~= prev.drop_first());
            }
        }
    }

    /// Whether the given front entry is stale at tick `now`: its timestamp
    /// plus the window `limit * ticks` is at or before `now`. An empty queue
    /// has nothing to discard.
    fn can_be_discarded(&self, front: Option<&RequestTimestamp>, now: &RequestTimestamp) -> (r:
        bool)
        requires
            spec_window(self.spec_limit(), self.spec_ticks()) <= i64::MAX,
        ensures
            r == (match front {
                Some(req) => stale(req@, spec_window(self.spec_limit(), self.spec_ticks()), now@),
                None => false,
            }),
    {
        match front {
            Some(req) => {
                let window: u128 = (self.limit as u128) * (self.ticks as u128);
                ((req.timestamp as i128) + (window as i128)) <= (now.timestamp as i128)
            },
            None => false,
        }
    }

    /// The path for a key with no stored entries: admitted, and recorded,
    /// exactly when the capacity is positive.
    fn add_request_for_new_source(&mut self, address: SourceAddress, now: RequestTimestamp) -> (r:
        RequestProcessingResponse)
        requires
            old(self).requests.wf(),
            !old(self).requests.spec_contains(address@),
            old(self).spec_queue(address@) == Seq::<i64>::empty(),
        ensures
            final(self).requests.wf(),
            final(self).spec_limit() == old(self).spec_limit(),
            final(self).spec_ticks() == old(self).spec_ticks(),
            r == spec_decision(
                Seq::<i64>::empty(),
                old(self).spec_limit(),
                old(self).spec_ticks(),
                now@,
            ),
            final(self).spec_queue(address@) == spec_next_queue(
                Seq::<i64>::empty(),
                old(self).spec_limit(),
                old(self).spec_ticks(),
                now@,
            ),
            forall|k: Seq<char>|
                k != address@ ==> final(self).spec_queue(k) == old(self).spec_queue(k),
    {
        if self.limit > 0 {
            let mut queue: VecDeque<RequestTimestamp> = VecDeque::new();
            queue.push_back(now);
            proof {
                assert(stamps(queue@) =~= Seq::<i64>::empty().push(now@));
            }
            self.requests.put(address, queue);
            RequestProcessingResponse::Allow
        } else {
            RequestProcessingResponse::Deny
        }
    }
}

} // verus!
