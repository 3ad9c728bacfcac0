//! The store as a state machine over plain mathematical data: what the
//! state is, when it is consistent, and how each basic step changes it.

use vstd::prelude::*;
use crate::config::StorageConfig;
use crate::expire::{by_deadline, lemma_with_deadline, lemma_without_key, of_other_key, with_deadline,
    without_key};
use crate::memory::{AccessRecordView, MemoryTrackerView, charged, credited, distinct_keys,
    entry_cost, has_record, lemma_record_index_unique, lemma_total_size_bounds,
    lemma_total_size_push, lemma_total_size_update, reclaimable_size, record_index, total_size,
    touched, victim, without_record, bumped, lemma_victim_is_on_record, COUNTER_INIT};
use crate::seqs::{lemma_filter_all, lemma_filter_len_strict};
use crate::types::{RedisDataView, StoredValueView};

verus! {

/// The value that follows `entropy` when one command evicts several keys.
pub open spec fn next_entropy(entropy: u64) -> u64 {
    entropy.wrapping_mul(6364136223846793005u64).wrapping_add(1442695040888963407u64)
}

/// The entry that pairs `data` with the deadline `expire_at`.
pub open spec fn entry_of(data: RedisDataView, expire_at: Option<u64>) -> StoredValueView {
    StoredValueView { data, expire_at }
}

/// Everything the store holds.
pub struct EngineView {
    /// The keyspace.
    pub entries: Map<Seq<u8>, StoredValueView>,
    /// The memory accountant.
    pub memory: MemoryTrackerView,
    /// The expiration schedule, earliest deadline first.
    pub schedule: Seq<(u64, Seq<u8>)>,
    /// The monotonic time last observed, in milliseconds.
    pub now: u64,
    /// The wall-clock time last observed, in microseconds since the epoch.
    pub wall_us: u64,
    /// The random bits last observed.
    pub entropy: u64,
    /// The wall-clock time first observed, in seconds since the epoch.
    pub started_s: Option<u64>,
    /// Milliseconds between two background sweeps.
    pub sweep_interval_ms: u64,
    /// Whether the background sweeper has been asked for.
    pub sweeper_started: bool,
}

impl EngineView {
    /// The parts of the state agree with each other:
    /// the accountant has one record per key, charged what the key's
    /// entry costs and noting its deadline, and its total is the sum of
    /// those charges; the schedule lists, in deadline order and once
    /// each, exactly the keys that have a deadline; and every value is
    /// well formed.
    pub open spec fn wf(self) -> bool {
        let records = self.memory.records;
        &&& distinct_keys(records)
        &&& self.memory.total == total_size(records)
        &&& by_deadline(self.schedule)
        &&& self.schedule.no_duplicates()
        &&& forall|i: int|
            0 <= i < records.len() ==> {
                let r = #[trigger] records[i];
                &&& self.entries.contains_key(r.key)
                &&& r.size == entry_cost(r.key.len() as int, self.entries[r.key])
                &&& r.expire_at == self.entries[r.key].expire_at
            }
        &&& forall|k: Seq<u8>| #[trigger] self.entries.contains_key(k) ==> has_record(records, k)
        &&& forall|i: int|
            0 <= i < self.schedule.len() ==> {
                let e = #[trigger] self.schedule[i];
                self.entries.contains_key(e.1) && self.entries[e.1].expire_at == Some(e.0)
            }
        &&& forall|k: Seq<u8>|
            #[trigger] self.entries.contains_key(k) && self.entries[k].expire_at is Some
                ==> self.schedule.contains((self.entries[k].expire_at->0, k))
        &&& forall|k: Seq<u8>| #[trigger] self.entries.contains_key(k) ==> self.entries[k].data.wf()
    }

    /// The state of a store that has just been made: no keys, nothing
    /// accounted for, nothing scheduled, no clock observed yet.
    pub open spec fn fresh(sweep_interval_ms: u64, config: StorageConfig) -> EngineView {
        EngineView {
            entries: Map::empty(),
            memory: MemoryTrackerView { config, total: 0, records: Seq::empty() },
            schedule: Seq::empty(),
            now: 0,
            wall_us: 0,
            entropy: 0,
            started_s: None,
            sweep_interval_ms,
            sweeper_started: false,
        }
    }

    /// The state after the clocks and fresh random bits have been
    /// observed. The monotonic time never goes back; the first
    /// wall-clock time observed is kept as the time the store started.
    pub open spec fn observed(self, now_ms: u64, wall_us: u64, entropy: u64) -> EngineView {
        EngineView {
            now: if now_ms > self.now {
                now_ms
            } else {
                self.now
            },
            wall_us,
            entropy,
            started_s: match self.started_s {
                Some(s) => Some(s),
                None => Some(wall_us / 1_000_000),
            },
            ..self
        }
    }

    /// Bytes accounted for.
    pub open spec fn used(self) -> int {
        self.memory.total as int
    }

    /// Whether `key` holds an entry whose deadline has been reached.
    pub open spec fn is_expired(self, key: Seq<u8>) -> bool {
        self.entries.contains_key(key) && self.entries[key].is_expired(self.now)
    }

    /// The entry that `key` holds, unless its deadline has been reached.
    pub open spec fn live(self, key: Seq<u8>) -> Option<StoredValueView> {
        if self.entries.contains_key(key) && !self.entries[key].is_expired(self.now) {
            Some(self.entries[key])
        } else {
            None
        }
    }

    /// The state after `key` has left: its entry, its record with the
    /// accountant and its place in the schedule are gone.
    pub open spec fn drop_key(self, key: Seq<u8>) -> EngineView {
        EngineView {
            entries: self.entries.remove(key),
            memory: MemoryTrackerView {
                total: (self.memory.total - charged(self.memory.records, key)) as usize,
                records: without_record(self.memory.records, key),
                ..self.memory
            },
            schedule: without_key(self.schedule, key),
            ..self
        }
    }

    /// The state after an entry whose deadline has been reached has been
    /// purged from under `key`.
    pub open spec fn purge(self, key: Seq<u8>) -> EngineView {
        if self.is_expired(key) {
            self.drop_key(key)
        } else {
            self
        }
    }

    /// The state after `entry` has been stored under `key`, credited to
    /// the accountant and, if it has a deadline, put on the schedule.
    pub open spec fn put(self, key: Seq<u8>, entry: StoredValueView) -> EngineView {
        let size = entry_cost(key.len() as int, entry);
        EngineView {
            entries: self.entries.insert(key, entry),
            memory: MemoryTrackerView {
                total: (self.memory.total - charged(self.memory.records, key) + size) as usize,
                records: credited(self.memory.records, key, size, entry.expire_at),
                ..self.memory
            },
            schedule: match entry.expire_at {
                Some(at) => with_deadline(self.schedule, key, at),
                None => self.schedule,
            },
            ..self
        }
    }

    /// The state after a read of `key` has been noted by the accountant.
    pub open spec fn touch(self, key: Seq<u8>) -> EngineView {
        EngineView {
            memory: MemoryTrackerView {
                records: touched(self.memory.records, self.memory.config.maxmemory_policy, key),
                ..self.memory
            },
            ..self
        }
    }

    /// The state after a read of `key`: an entry past its deadline is
    /// purged, any other is noted as read.
    pub open spec fn read(self, key: Seq<u8>) -> EngineView {
        self.purge(key).touch(key)
    }

    /// The state after keys have been evicted, one victim at a time,
    /// until `pending` more bytes fit under `limit` or no key may be
    /// evicted any more.
    pub open spec fn evict_until_fits(self, pending: usize, limit: usize) -> EngineView
        decreases self.memory.records.len(),
    {
        if self.memory.total + pending <= limit {
            self
        } else {
            match victim(self.memory.config.maxmemory_policy, self.memory.records, self.entropy) {
                Some(key) => {
                    proof {
                        lemma_victim_is_on_record(
                            self.memory.config.maxmemory_policy,
                            self.memory.records,
                            self.entropy,
                        );
                    }
                    (EngineView {
                        entropy: next_entropy(self.entropy),
                        ..self.drop_key(key)
                    }).evict_until_fits(pending, limit)
                },
                None => self,
            }
        }
    }

    /// Whether storing `entry` under `key` is refused for want of memory.
    ///
    /// With no budget set, only a total beyond the machine word is
    /// refused. With a budget, a write that does not fit is refused
    /// under `noeviction`, and under a volatile policy when evicting
    /// every other key that has a deadline would still not make room.
    #[verifier::opaque]
    pub open spec fn refuses(self, key: Seq<u8>, entry: StoredValueView) -> bool {
        let cost = entry_cost(key.len() as int, entry);
        let base = self.memory.total - charged(self.memory.records, key);
        let policy = self.memory.config.maxmemory_policy;
        match self.memory.config.maxmemory {
            None => base + cost > usize::MAX,
            Some(limit) => base + cost > limit && (policy is NoEviction || (policy.is_volatile()
                && base + cost - reclaimable_size(
                without_record(self.memory.records, key),
                true,
            ) > limit)),
        }
    }

    /// The state after `entry` has been written under `key`: unchanged
    /// if the write is refused; otherwise the key's old entry is dropped,
    /// victims are evicted as far as the budget asks, and the new entry
    /// is put in place.
    #[verifier::opaque]
    pub open spec fn write(self, key: Seq<u8>, entry: StoredValueView) -> EngineView {
        let cost = entry_cost(key.len() as int, entry);
        let base = self.drop_key(key);
        if self.refuses(key, entry) {
            self
        } else {
            match self.memory.config.maxmemory {
                None => base.put(key, entry),
                Some(limit) => base.evict_until_fits(cost, limit).put(key, entry),
            }
        }
    }

    /// The state after every key at the head of the schedule whose
    /// deadline has been reached has left.
    pub open spec fn swept(self) -> EngineView
        decreases self.schedule.len(),
    {
        if self.schedule.len() > 0 && self.schedule[0].0 <= self.now {
            proof {
                lemma_filter_len_strict(self.schedule, of_other_key(self.schedule[0].1), 0);
            }
            self.drop_key(self.schedule[0].1).swept()
        } else {
            self
        }
    }

    /// Number of keys that a sweep removes.
    pub open spec fn swept_count(self) -> nat
        decreases self.schedule.len(),
    {
        if self.schedule.len() > 0 && self.schedule[0].0 <= self.now {
            proof {
                lemma_filter_len_strict(self.schedule, of_other_key(self.schedule[0].1), 0);
            }
            1 + self.drop_key(self.schedule[0].1).swept_count()
        } else {
            0
        }
    }

    /// The state after the live entry under `key` has been given the
    /// deadline `expire_at`: an entry past its deadline is purged, an
    /// entry that has this deadline already stays as it is, any other
    /// is stored afresh.
    pub open spec fn with_expiry(self, key: Seq<u8>, expire_at: Option<u64>) -> EngineView {
        let purged = self.purge(key);
        if purged.entries.contains_key(key) && purged.entries[key].expire_at != expire_at {
            purged.drop_key(key).put(key, entry_of(purged.entries[key].data, expire_at))
        } else {
            purged
        }
    }

    /// Milliseconds until the live entry under `key` expires, if it has
    /// a deadline.
    pub open spec fn remaining(self, key: Seq<u8>) -> Option<u64> {
        match self.live(key) {
            Some(entry) => match entry.expire_at {
                Some(at) => Some((at - self.now) as u64),
                None => None,
            },
            None => None,
        }
    }

    /// The reply to a time-to-live query in units of `unit` milliseconds:
    /// the time left, rounded down; `-1` without a deadline; `-2`
    /// without a live entry.
    pub open spec fn ttl_reply(self, key: Seq<u8>, unit: int) -> i64 {
        match self.live(key) {
            Some(entry) => match entry.expire_at {
                Some(at) => {
                    let left = (at - self.now) / unit;
                    if left > i64::MAX {
                        i64::MAX
                    } else {
                        left as i64
                    }
                },
                None => -1i64,
            },
            None => -2i64,
        }
    }

    /// The state with the memory settings replaced by `config`.
    pub open spec fn with_config(self, config: StorageConfig) -> EngineView {
        EngineView { memory: MemoryTrackerView { config, ..self.memory }, ..self }
    }

    /// The state after every key has left.
    pub open spec fn flushed(self) -> EngineView {
        EngineView {
            entries: Map::empty(),
            memory: MemoryTrackerView { total: 0, records: Seq::empty(), ..self.memory },
            schedule: Seq::empty(),
            ..self
        }
    }
}

/// Dropping a key keeps the state consistent and debits exactly what the
/// key was charged for.
pub proof fn lemma_drop_key(s: EngineView, key: Seq<u8>)
    requires
        s.wf(),
    ensures
        s.drop_key(key).wf(),
        !s.drop_key(key).entries.contains_key(key),
        s.drop_key(key).memory.total == s.memory.total - charged(s.memory.records, key),
        s.entries.contains_key(key) <==> has_record(s.memory.records, key),
        s.entries.contains_key(key) ==> s.drop_key(key).memory.records.len()
            == s.memory.records.len() - 1 && charged(s.memory.records, key) == entry_cost(
            key.len() as int,
            s.entries[key],
        ),
        !s.entries.contains_key(key) ==> s.drop_key(key) == s,
        s.drop_key(key).schedule.len() <= s.schedule.len(),
{
    let d = s.drop_key(key);
    let records = s.memory.records;
    lemma_without_key(s.schedule, key);
    if has_record(records, key) {
        let at = record_index(records, key);
        lemma_record_index_unique(records, at);
        lemma_total_size_bounds(records, at);
        let rest = records.remove(at);
        assert(d.memory.records == rest);
        assert forall|i: int| 0 <= i < rest.len() implies {
            let r = #[trigger] rest[i];
            &&& d.entries.contains_key(r.key)
            &&& r.size == entry_cost(r.key.len() as int, d.entries[r.key])
            &&& r.expire_at == d.entries[r.key].expire_at
        } by {
            let j = if i < at { i } else { i + 1 };
            assert(rest[i] == records[j]);
        }
        assert forall|i: int, j: int|
            0 <= i < rest.len() && 0 <= j < rest.len() && i != j implies (#[trigger] rest[i]).key
            != (#[trigger] rest[j]).key by {
            let ii = if i < at { i } else { i + 1 };
            let jj = if j < at { j } else { j + 1 };
            assert(rest[i] == records[ii]);
            assert(rest[j] == records[jj]);
        }
        assert forall|k: Seq<u8>| #[trigger] d.entries.contains_key(k) implies has_record(
            rest,
            k,
        ) by {
            assert(s.entries.contains_key(k));
            let m = record_index(records, k);
            let n = if m < at { m } else { m - 1 };
            assert(rest[n] == records[m]);
        }
    } else {
        if s.entries.contains_key(key) {
            assert(has_record(records, key));
        }
        assert(d.entries =~= s.entries);
        assert forall|i: int| 0 <= i < s.schedule.len() implies of_other_key(key)(
            #[trigger] s.schedule[i],
        ) by {
            assert(s.entries.contains_key(s.schedule[i].1));
        }
        lemma_filter_all(s.schedule, of_other_key(key));
    }
    assert forall|i: int| 0 <= i < d.schedule.len() implies {
        let e = #[trigger] d.schedule[i];
        d.entries.contains_key(e.1) && d.entries[e.1].expire_at == Some(e.0)
    } by {
        let e = d.schedule[i];
        assert(d.schedule.contains(e));
        assert(s.schedule.contains(e));
        let j = choose|j: int| 0 <= j < s.schedule.len() && s.schedule[j] == e;
        assert(s.entries.contains_key(s.schedule[j].1));
    }
    assert forall|k: Seq<u8>|
        #[trigger] d.entries.contains_key(k) && d.entries[k].expire_at is Some implies d.schedule.contains(
        (d.entries[k].expire_at->0, k),
    ) by {
        assert(s.entries.contains_key(k));
        assert(s.schedule.contains((s.entries[k].expire_at->0, k)));
    }
}

/// Storing an entry under a key that holds none keeps the state
/// consistent and credits exactly what the entry costs.
pub proof fn lemma_put(s: EngineView, key: Seq<u8>, entry: StoredValueView)
    requires
        s.wf(),
        !s.entries.contains_key(key),
        entry.data.wf(),
        s.memory.total + entry_cost(key.len() as int, entry) <= usize::MAX,
    ensures
        s.put(key, entry).wf(),
        s.put(key, entry).memory.total == s.memory.total + entry_cost(key.len() as int, entry),
        s.put(key, entry).memory.records == s.memory.records.push(
            AccessRecordView {
                key,
                size: entry_cost(key.len() as int, entry),
                expire_at: entry.expire_at,
                count: COUNTER_INIT,
            },
        ),
{
    let p = s.put(key, entry);
    let records = s.memory.records;
    let size = entry_cost(key.len() as int, entry);
    if has_record(records, key) {
        let at = record_index(records, key);
        assert(s.entries.contains_key(records[at].key));
    }
    let fresh = AccessRecordView { key, size, expire_at: entry.expire_at, count: COUNTER_INIT };
    let after = records.push(fresh);
    assert(p.memory.records == after);
    lemma_total_size_push(records, fresh);
    assert forall|i: int, j: int|
        0 <= i < after.len() && 0 <= j < after.len() && i != j implies (#[trigger] after[i]).key
        != (#[trigger] after[j]).key by {
        if i < records.len() {
            assert(after[i] == records[i]);
            assert(s.entries.contains_key(records[i].key));
        }
        if j < records.len() {
            assert(after[j] == records[j]);
            assert(s.entries.contains_key(records[j].key));
        }
    }
    assert forall|i: int| 0 <= i < after.len() implies {
        let r = #[trigger] after[i];
        &&& p.entries.contains_key(r.key)
        &&& r.size == entry_cost(r.key.len() as int, p.entries[r.key])
        &&& r.expire_at == p.entries[r.key].expire_at
    } by {
        if i < records.len() {
            assert(after[i] == records[i]);
        }
    }
    assert forall|k: Seq<u8>| #[trigger] p.entries.contains_key(k) implies has_record(after, k) by {
        if k == key {
            assert(after[after.len() - 1].key == key);
        } else {
            assert(s.entries.contains_key(k));
            let m = record_index(records, k);
            assert(after[m] == records[m]);
        }
    }
    match entry.expire_at {
        Some(at) => {
            lemma_with_deadline(s.schedule, key, at);
        },
        None => {},
    }
    assert forall|i: int| 0 <= i < p.schedule.len() implies {
        let e = #[trigger] p.schedule[i];
        p.entries.contains_key(e.1) && p.entries[e.1].expire_at == Some(e.0)
    } by {
        let e = p.schedule[i];
        assert(p.schedule.contains(e));
        if s.schedule.contains(e) {
            let j = choose|j: int| 0 <= j < s.schedule.len() && s.schedule[j] == e;
            assert(s.entries.contains_key(s.schedule[j].1));
        }
    }
    assert forall|k: Seq<u8>|
        #[trigger] p.entries.contains_key(k) && p.entries[k].expire_at is Some implies p.schedule.contains(
        (p.entries[k].expire_at->0, k),
    ) by {
        if k != key {
            assert(s.entries.contains_key(k));
            assert(s.schedule.contains((s.entries[k].expire_at->0, k)));
        }
    }
}

/// Noting a read keeps the state consistent.
pub proof fn lemma_touch(s: EngineView, key: Seq<u8>)
    requires
        s.wf(),
    ensures
        s.touch(key).wf(),
        s.touch(key).memory.records.len() == s.memory.records.len(),
{
    let t = s.touch(key);
    let records = s.memory.records;
    let policy = s.memory.config.maxmemory_policy;
    let after = t.memory.records;
    if has_record(records, key) {
        let at = record_index(records, key);
        lemma_record_index_unique(records, at);
        lemma_total_size_bounds(records, at);
        if policy.is_lru() {
            let rest = records.remove(at);
            lemma_total_size_push(rest, records[at]);
            assert(after == rest.push(records[at]));
            assert forall|i: int| 0 <= i < after.len() implies exists|j: int|
                0 <= j < records.len() && #[trigger] after[i] == records[j] by {
                if i < rest.len() {
                    let j = if i < at { i } else { i + 1 };
                    assert(after[i] == records[j]);
                } else {
                    assert(after[i] == records[at]);
                }
            }
            assert forall|i: int, j: int|
                0 <= i < after.len() && 0 <= j < after.len() && i != j implies (
            #[trigger] after[i]).key != (#[trigger] after[j]).key by {
                let ii = if i == rest.len() { at } else if i < at { i } else { i + 1 };
                let jj = if j == rest.len() { at } else if j < at { j } else { j + 1 };
                assert(after[i] == records[ii]);
                assert(after[j] == records[jj]);
            }
            assert forall|i: int| 0 <= i < after.len() implies {
                let r = #[trigger] after[i];
                &&& t.entries.contains_key(r.key)
                &&& r.size == entry_cost(r.key.len() as int, t.entries[r.key])
                &&& r.expire_at == t.entries[r.key].expire_at
            } by {
                let ii = if i == rest.len() { at } else if i < at { i } else { i + 1 };
                assert(after[i] == records[ii]);
            }
            assert forall|k: Seq<u8>| #[trigger] t.entries.contains_key(k) implies has_record(
                after,
                k,
            ) by {
                let m = record_index(records, k);
                assert(has_record(records, k));
                let n = if m == at { rest.len() as int } else if m < at { m } else { m - 1 };
                assert(after[n] == records[m]);
            }
        } else if policy.is_lfu() {
            let next = bumped(records[at]);
            lemma_total_size_update(records, at, next);
            assert(after == records.update(at, next));
            assert forall|i: int, j: int|
                0 <= i < after.len() && 0 <= j < after.len() && i != j implies (
            #[trigger] after[i]).key != (#[trigger] after[j]).key by {
                assert(after[i].key == records[i].key);
                assert(after[j].key == records[j].key);
            }
            assert forall|i: int| 0 <= i < after.len() implies {
                let r = #[trigger] after[i];
                &&& t.entries.contains_key(r.key)
                &&& r.size == entry_cost(r.key.len() as int, t.entries[r.key])
                &&& r.expire_at == t.entries[r.key].expire_at
            } by {
                assert(after[i].key == records[i].key);
                assert(after[i].size == records[i].size);
                assert(after[i].expire_at == records[i].expire_at);
            }
            assert forall|k: Seq<u8>| #[trigger] t.entries.contains_key(k) implies has_record(
                after,
                k,
            ) by {
                assert(has_record(records, k));
                let m = record_index(records, k);
                assert(after[m].key == records[m].key);
            }
        }
    }
}

} // verus!
