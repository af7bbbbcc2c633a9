//! The admission ledger: a pure mapping from request key to the ordered
//! timestamps of admitted, not-yet-evicted events for that key.
//!
//! The ledger does no time-based logic at all; eviction is performed by the
//! rate limiter on a queue it has taken out. A key that is absent is
//! equivalent to a key holding an empty queue, so the model
//! ([`Ledger::spec_queue`]) is a total function from keys to timestamp
//! sequences.

use std::collections::VecDeque;

use vstd::prelude::*;

use crate::rate_limiter::RequestTimestamp;
use crate::rate_limiter::SourceAddress;

verus! {

/// The tick counts held in a queue, oldest first.
pub open spec fn stamps(q: Seq<RequestTimestamp>) -> Seq<i64> {
    q.map_values(|r: RequestTimestamp| r@)
}

type Entry = (SourceAddress, VecDeque<RequestTimestamp>);

/// Per-key storage of admission timestamps, keyed by exact string equality.
pub struct Ledger {
    entries: Vec<Entry>,
}

/// Whether `entries` stores key `k`.
spec fn seq_contains(entries: Seq<Entry>, k: Seq<char>) -> bool {
    exists|i: int| 0 <= i < entries.len() && entries[i].0@ == k
}

/// The index at which `entries` stores key `k`.
spec fn seq_index_of(entries: Seq<Entry>, k: Seq<char>) -> int {
    choose|i: int| 0 <= i < entries.len() && entries[i].0@ == k
}

/// The timestamps `entries` stores under key `k`; an absent key holds the
/// empty queue.
spec fn seq_queue(entries: Seq<Entry>, k: Seq<char>) -> Seq<i64> {
    if seq_contains(entries, k) {
        stamps(entries[seq_index_of(entries, k)].1@)
    } else {
        Seq::<i64>::empty()
    }
}

/// Whether `entries` stores each key at most once.
spec fn seq_unique_keys(entries: Seq<Entry>) -> bool {
    forall|i: int, j: int| 0 <= i < j < entries.len() ==> entries[i].0@ != entries[j].0@
}

impl Ledger {
    /// Whether a queue is stored under key `k`.
    pub closed spec fn spec_contains(&self, k: Seq<char>) -> bool {
        seq_contains(self.entries@, k)
    }

    /// The timestamps stored under key `k`; an absent key holds the empty
    /// queue.
    pub closed spec fn spec_queue(&self, k: Seq<char>) -> Seq<i64> {
        seq_queue(self.entries@, k)
    }

    /// Each key is stored at most once.
    pub closed spec fn wf(&self) -> bool {
        seq_unique_keys(self.entries@)
    }

    /// A key that is absent holds the empty queue.
    pub proof fn lemma_absent_empty(&self, k: Seq<char>)
        requires
            !self.spec_contains(k),
        ensures
            self.spec_queue(k) == Seq::<i64>::empty(),
    {
    }

    /// An empty ledger: every key holds the empty queue.
    pub fn new() -> (r: Ledger)
        ensures
            r.wf(),
            forall|k: Seq<char>| !r.spec_contains(k),
            forall|k: Seq<char>| r.spec_queue(k) == Seq::<i64>::empty(),
    {
        Ledger { entries: Vec::new() }
    }

    /// Takes the queue stored under `key` out of the ledger, leaving the key
    /// absent; every other key's queue is untouched.
    pub fn take(&mut self, key: &SourceAddress) -> (r: Option<VecDeque<RequestTimestamp>>)
        requires
            old(self).wf(),
        ensures
            final(self).wf(),
            !final(self).spec_contains(key@),
            final(self).spec_queue(key@) == Seq::<i64>::empty(),
            forall|k: Seq<char>|
                k != key@ ==> final(self).spec_contains(k) == old(self).spec_contains(k),
            forall|k: Seq<char>|
                k != key@ ==> final(self).spec_queue(k) == old(self).spec_queue(k),
            match r {
                Some(q) => old(self).spec_contains(key@) && stamps(q@) == old(self).spec_queue(
                    key@,
                ),
                None => !old(self).spec_contains(key@),
            },
    {
        let ghost old_entries = self.entries@;
        let n = self.entries.len();
        let mut i: usize = 0;
        while i < n
            invariant
                *self == *old(self),
                old(self).wf(),
                old_entries == self.entries@,
                n == self.entries@.len(),
                i <= n,
                forall|j: int| 0 <= j < i ==> self.entries@[j].0@ != key@,
            decreases n - i,
        {
            if self.entries[i].0 == *key {
                let pair = self.entries.remove(i);
                proof {
                    assert(old_entries[i as int].0@ == key@);
                    assert(seq_contains(old_entries, key@));
                    assert(pair == old_entries[i as int]);
                    lemma_remove_key(old_entries, i as int, key@);
                    assert(seq_index_of(old_entries, key@) == i) by {
                        let c = seq_index_of(old_entries, key@);
                        assert(0 <= c < old_entries.len() && old_entries[c].0@ == key@);
                    }
                }
                return Some(pair.1);
            }
            i += 1;
        }
        None
    }

    /// Stores `queue` under `key`, which must be absent; every other key's
    /// queue is untouched.
    pub fn put(&mut self, key: SourceAddress, queue: VecDeque<RequestTimestamp>)
        requires
            old(self).wf(),
            !old(self).spec_contains(key@),
        ensures
            final(self).wf(),
            final(self).spec_contains(key@),
            final(self).spec_queue(key@) == stamps(queue@),
            forall|k: Seq<char>|
                k != key@ ==> final(self).spec_contains(k) == old(self).spec_contains(k),
            forall|k: Seq<char>|
                k != key@ ==> final(self).spec_queue(k) == old(self).spec_queue(k),
    {
        let ghost old_entries = self.entries@;
        let ghost pair0: Entry = (key, queue);
        self.entries.push((key, queue));
        proof {
            assert(self.entries@ == old_entries.push(pair0));
            lemma_push_key(old_entries, pair0);
        }
    }
}

/// Removing the one index that holds key `k` from a unique-keyed entry list
/// leaves `k` absent and every other key's queue untouched.
proof fn lemma_remove_key(old_entries: Seq<Entry>, i: int, k: Seq<char>)
    requires
        seq_unique_keys(old_entries),
        0 <= i < old_entries.len(),
        old_entries[i].0@ == k,
    ensures
        seq_unique_keys(old_entries.remove(i)),
        !seq_contains(old_entries.remove(i), k),
        seq_queue(old_entries.remove(i), k) == Seq::<i64>::empty(),
        forall|k2: Seq<char>|
            k2 != k ==> seq_contains(old_entries.remove(i), k2) == seq_contains(old_entries, k2),
        forall|k2: Seq<char>|
            k2 != k ==> seq_queue(old_entries.remove(i), k2) == seq_queue(old_entries, k2),
{
    let e = old_entries.remove(i);
    assert forall|j: int| 0 <= j < e.len() implies (j < i ==> e[j] == old_entries[j]) && (j >= i
        ==> e[j] == old_entries[j + 1]) by {
        assert(e == old_entries.subrange(0, i) + old_entries.subrange(
            i + 1,
            old_entries.len() as int,
        ));
    }
    assert forall|a: int, b: int| 0 <= a < b < e.len() implies e[a].0@ != e[b].0@ by {
        let oa = if a < i {
            a
        } else {
            a + 1
        };
        let ob = if b < i {
            b
        } else {
            b + 1
        };
        assert(e[a] == old_entries[oa] && e[b] == old_entries[ob] && oa < ob);
    }
    assert(!seq_contains(e, k)) by {
        if seq_contains(e, k) {
            let j = choose|j: int| 0 <= j < e.len() && e[j].0@ == k;
            let oj = if j < i {
                j
            } else {
                j + 1
            };
            assert(old_entries[oj].0@ == k && oj != i);
        }
    }
    assert forall|k2: Seq<char>| k2 != k implies seq_contains(e, k2) == seq_contains(
        old_entries,
        k2,
    ) by {
        if seq_contains(e, k2) {
            let j = choose|j: int| 0 <= j < e.len() && e[j].0@ == k2;
            let oj = if j < i {
                j
            } else {
                j + 1
            };
            assert(old_entries[oj].0@ == k2);
        }
        if seq_contains(old_entries, k2) {
            let j = choose|j: int| 0 <= j < old_entries.len() && old_entries[j].0@ == k2;
            let nj = if j < i {
                j
            } else {
                j - 1
            };
            assert(j != i);
            assert(e[nj].0@ == k2);
        }
    }
    assert forall|k2: Seq<char>| k2 != k && seq_contains(e, k2) implies seq_queue(e, k2)
        == seq_queue(old_entries, k2) by {
        let c = seq_index_of(e, k2);
        assert(0 <= c < e.len() && e[c].0@ == k2);
        let oc = if c < i {
            c
        } else {
            c + 1
        };
        let d = seq_index_of(old_entries, k2);
        assert(0 <= d < old_entries.len() && old_entries[d].0@ == k2);
        assert(e[c] == old_entries[oc] && oc == d);
    }
}

/// Appending an entry whose key is absent from a unique-keyed entry list
/// stores its queue under that key and touches no other key.
proof fn lemma_push_key(old_entries: Seq<Entry>, pair: Entry)
    requires
        seq_unique_keys(old_entries),
        !seq_contains(old_entries, pair.0@),
    ensures
        seq_unique_keys(old_entries.push(pair)),
        seq_contains(old_entries.push(pair), pair.0@),
        seq_queue(old_entries.push(pair), pair.0@) == stamps(pair.1@),
        forall|k: Seq<char>|
            k != pair.0@ ==> seq_contains(old_entries.push(pair), k) == seq_contains(
                old_entries,
                k,
            ),
        forall|k: Seq<char>|
            k != pair.0@ ==> seq_queue(old_entries.push(pair), k) == seq_queue(old_entries, k),
{
    let e = old_entries.push(pair);
    let m = old_entries.len() as int;
    let k0 = pair.0@;
    assert(e[m] == pair);
    assert forall|j: int| 0 <= j < m implies e[j] == old_entries[j] && old_entries[j].0@ != k0 by {
        if old_entries[j].0@ == k0 {
            assert(seq_contains(old_entries, k0));
        }
    }
    assert(seq_unique_keys(e));
    assert(seq_contains(e, k0));
    assert(seq_queue(e, k0) == stamps(pair.1@)) by {
        let c = seq_index_of(e, k0);
        assert(0 <= c < e.len() && e[c].0@ == k0);
        assert(c == m);
    }
    assert forall|k: Seq<char>| k != k0 implies seq_contains(e, k) == seq_contains(
        old_entries,
        k,
    ) by {
        if seq_contains(e, k) {
            let j = choose|j: int| 0 <= j < e.len() && e[j].0@ == k;
            assert(j != m);
            assert(old_entries[j].0@ == k);
        }
        if seq_contains(old_entries, k) {
            let j = choose|j: int| 0 <= j < old_entries.len() && old_entries[j].0@ == k;
            assert(e[j].0@ == k);
        }
    }
    assert forall|k: Seq<char>| k != k0 && seq_contains(e, k) implies seq_queue(e, k) == seq_queue(
        old_entries,
        k,
    ) by {
        let c = seq_index_of(e, k);
        assert(0 <= c < e.len() && e[c].0@ == k);
        assert(c != m);
        let d = seq_index_of(old_entries, k);
        assert(0 <= d < old_entries.len() && old_entries[d].0@ == k);
        assert(e[c] == old_entries[c] && c == d);
    }
}

} // verus!
