//! Properties of the admission-control rules, stated and proved over the
//! spec functions that the rate limiter's contracts use.

use vstd::prelude::*;

use crate::rate_limiter::RequestProcessingResponse;
use crate::rate_limiter::evict_prefix;
use crate::rate_limiter::spec_decision;
use crate::rate_limiter::spec_next_queue;
use crate::rate_limiter::spec_window;
use crate::rate_limiter::stale;

verus! {

/// Eviction never grows a queue.
pub proof fn lemma_evict_prefix_len(q: Seq<i64>, window: int, now: i64)
    ensures
        evict_prefix(q, window, now).len() <= q.len(),
    decreases q.len(),
{
    if q.len() > 0 && stale(q[0], window, now) {
        lemma_evict_prefix_len(q.drop_first(), window, now);
    }
}

/// Capacity invariant: a queue holding at most `limit` entries still holds
/// at most `limit` entries after a request is processed, whatever the tick.
pub proof fn lemma_capacity_preserved(q: Seq<i64>, limit: nat, ticks: nat, now: i64)
    requires
        q.len() <= limit,
    ensures
        spec_next_queue(q, limit, ticks, now).len() <= limit,
{
    lemma_evict_prefix_len(q, spec_window(limit, ticks), now);
}

/// Zero-limit policy: with `limit == 0`, every request is denied, whatever
/// the key's queue and the tick.
pub proof fn lemma_zero_limit_denies(q: Seq<i64>, ticks: nat, now: i64)
    ensures
        spec_decision(q, 0, ticks, now) == RequestProcessingResponse::Deny,
{
}

/// Eviction drops a prefix of stale entries and keeps the rest in order:
/// what survives is a suffix of the old queue, and every dropped entry was
/// stale at the tick of the request.
pub proof fn lemma_evict_prefix_structure(q: Seq<i64>, window: int, now: i64)
    ensures
        exists|i: int|
            {
                &&& 0 <= i <= q.len()
                &&& #[trigger] q.subrange(i, q.len() as int) == evict_prefix(q, window, now)
                &&& forall|j: int| 0 <= j < i ==> stale(q[j], window, now)
            },
    decreases q.len(),
{
    if q.len() > 0 && stale(q[0], window, now) {
        lemma_evict_prefix_structure(q.drop_first(), window, now);
        let rest = q.drop_first();
        let i = choose|i: int|
            {
                &&& 0 <= i <= rest.len()
                &&& #[trigger] rest.subrange(i, rest.len() as int) == evict_prefix(
                    rest,
                    window,
                    now,
                )
                &&& forall|j: int| 0 <= j < i ==> stale(rest[j], window, now)
            };
        assert(q.subrange(i + 1, q.len() as int) =~= rest.subrange(i, rest.len() as int));
        assert forall|j: int| 0 <= j < i + 1 implies stale(q[j], window, now) by {
            if j > 0 {
                assert(q[j] == rest[j - 1]);
            }
        }
        assert(q.subrange(i + 1, q.len() as int) == evict_prefix(q, window, now));
    } else {
        assert(q.subrange(0, q.len() as int) =~= q);
    }
}

/// Monotone eviction: one request leaves a suffix of the key's old queue —
/// every dropped entry was stale — with, at most, the current tick appended.
/// An entry that was evicted is gone for good: no later queue re-admits or
/// re-counts it, since the only entry a request ever adds is its own tick.
pub proof fn lemma_monotone_eviction(q: Seq<i64>, limit: nat, ticks: nat, now: i64)
    ensures
        exists|i: int|
            {
                &&& 0 <= i <= q.len()
                &&& (spec_next_queue(q, limit, ticks, now) == #[trigger] q.subrange(
                    i,
                    q.len() as int,
                ) || spec_next_queue(q, limit, ticks, now) == q.subrange(i, q.len() as int).push(
                    now,
                ))
                &&& forall|j: int| 0 <= j < i ==> stale(q[j], spec_window(limit, ticks), now)
            },
{
    lemma_evict_prefix_structure(q, spec_window(limit, ticks), now);
}

/// Whether the queue's entries are in non-decreasing timestamp order, the
/// order in which admissions under a non-decreasing clock append them.
pub open spec fn sorted_non_decreasing(q: Seq<i64>) -> bool {
    forall|i: int, j: int| 0 <= i <= j < q.len() ==> q[i] <= q[j]
}

/// On a sorted queue, prefix eviction is complete: once the front entry is
/// within the window, so is every later entry, so everything that survives
/// eviction is still valid.
pub proof fn lemma_evict_prefix_complete(q: Seq<i64>, window: int, now: i64)
    requires
        sorted_non_decreasing(q),
    ensures
        forall|j: int|
            0 <= j < evict_prefix(q, window, now).len() ==> !stale(
                #[trigger] evict_prefix(q, window, now)[j],
                window,
                now,
            ),
    decreases q.len(),
{
    if q.len() > 0 && stale(q[0], window, now) {
        assert forall|i: int, j: int| 0 <= i <= j < q.drop_first().len() implies q.drop_first()[i]
            <= q.drop_first()[j] by {
            assert(q.drop_first()[i] == q[i + 1] && q.drop_first()[j] == q[j + 1]);
        }
        lemma_evict_prefix_complete(q.drop_first(), window, now);
        assert forall|j: int| 0 <= j < evict_prefix(q, window, now).len() implies !stale(
            evict_prefix(q, window, now)[j],
            window,
            now,
        ) by {
            assert(evict_prefix(q, window, now) == evict_prefix(q.drop_first(), window, now));
            assert(!stale(evict_prefix(q.drop_first(), window, now)[j], window, now));
        }
    } else if q.len() > 0 {
        assert forall|j: int| 0 <= j < evict_prefix(q, window, now).len() implies !stale(
            evict_prefix(q, window, now)[j],
            window,
            now,
        ) by {
            assert(evict_prefix(q, window, now) == q);
            assert(q[0] <= q[j]);
        }
    }
}

/// The sort invariant of the window queue: as long as requests arrive with
/// non-decreasing ticks, a sorted queue stays sorted — eviction keeps a
/// suffix, and the appended tick is at least every entry already there.
pub proof fn lemma_sorted_preserved(q: Seq<i64>, limit: nat, ticks: nat, now: i64)
    requires
        sorted_non_decreasing(q),
        forall|i: int| 0 <= i < q.len() ==> q[i] <= now,
    ensures
        sorted_non_decreasing(spec_next_queue(q, limit, ticks, now)),
{
    let window = spec_window(limit, ticks);
    lemma_evict_prefix_structure(q, window, now);
    let i = choose|i: int|
        {
            &&& 0 <= i <= q.len()
            &&& #[trigger] q.subrange(i, q.len() as int) == evict_prefix(q, window, now)
            &&& forall|j: int| 0 <= j < i ==> stale(q[j], window, now)
        };
    let kept = q.subrange(i, q.len() as int);
    assert forall|a: int, b: int| 0 <= a <= b < kept.len() implies kept[a] <= kept[b] by {
        assert(kept[a] == q[i + a] && kept[b] == q[i + b]);
    }
    let next = spec_next_queue(q, limit, ticks, now);
    if kept.len() < limit {
        assert forall|a: int, b: int| 0 <= a <= b < next.len() implies next[a] <= next[b] by {
            if b < kept.len() {
                assert(next[a] == kept[a] && next[b] == kept[b]);
            } else if a < kept.len() {
                assert(next[a] == kept[a] && kept[a] == q[i + a] && next[b] == now);
            }
        }
    }
}

/// An entry stale at one tick is stale at every later tick, so an entry that
/// became evictable can never come back into the window as the clock moves
/// forward.
pub proof fn lemma_stale_monotone(ts: i64, window: int, now1: i64, now2: i64)
    requires
        stale(ts, window, now1),
        now1 <= now2,
    ensures
        stale(ts, window, now2),
{
}

/// The decisions produced by replaying a sequence of request ticks against
/// one key, starting from the given queue: each request is decided against
/// the queue the previous one left.
pub open spec fn replay_decisions(q: Seq<i64>, limit: nat, ticks: nat, nows: Seq<i64>) -> Seq<
    RequestProcessingResponse,
>
    decreases nows.len(),
{
    if nows.len() == 0 {
        Seq::<RequestProcessingResponse>::empty()
    } else {
        seq![spec_decision(q, limit, ticks, nows[0])] + replay_decisions(
            spec_next_queue(q, limit, ticks, nows[0]),
            limit,
            ticks,
            nows.drop_first(),
        )
    }
}

/// Determinism under a fixed clock: the decision sequence is a function of
/// the starting queue, the configuration and the replayed ticks alone, so
/// replaying the same requests against the same clock readings always yields
/// the same decisions. Together with per-key independence this extends to
/// whole call sequences over many keys.
pub proof fn lemma_replay_deterministic(
    q1: Seq<i64>,
    q2: Seq<i64>,
    limit: nat,
    ticks: nat,
    nows: Seq<i64>,
)
    requires
        q1 == q2,
    ensures
        replay_decisions(q1, limit, ticks, nows) == replay_decisions(q2, limit, ticks, nows),
{
}

/// Per-key independence, the deciding half: what is decided for a key, and
/// the queue left for it, depend on that key's queue alone — two limiters
/// agreeing on one key's queue decide a request for that key identically,
/// whatever they hold for other keys. (The other half, that a request leaves
/// every other key's queue untouched, is an `ensures` clause of
/// `RateLimiter::try_add_request_at`.)
pub proof fn lemma_per_key_independence(
    qa: Seq<i64>,
    qb: Seq<i64>,
    limit: nat,
    ticks: nat,
    now: i64,
)
    requires
        qa == qb,
    ensures
        spec_decision(qa, limit, ticks, now) == spec_decision(qb, limit, ticks, now),
        spec_next_queue(qa, limit, ticks, now) == spec_next_queue(qb, limit, ticks, now),
{
}

} // verus!
