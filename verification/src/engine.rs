//! The storage engine: the keyspace together with its expiration
//! schedule and its memory accountant.
//!
//! The engine does not read a clock. Time and random bits reach it
//! through [`StorageEngine::observe`]; between two observations every
//! operation is a function of the state and its arguments.

use vstd::prelude::*;
use crate::bytes::copy_bytes;
use crate::config::{MaxMemoryPolicy, StorageConfig};
use crate::error::RedisError;
use crate::expire::{ExpirationManager, of_other_key};
use crate::seqs::lemma_filter_len_strict;
use crate::keyspace::Keyspace;
use crate::memory::{MemoryTracker, entry_cost, has_record, lemma_reclaimable_bounds,
    lemma_reclaimable_remove, lemma_record_index_unique, lemma_victim, reclaimable_size,
    record_index, victim};
use crate::model::{EngineView, entry_of, lemma_drop_key, lemma_put, lemma_touch, next_entropy};
use crate::types::{RedisData, StoredValue, StoredValueView, list_view};

verus! {

/// Sweep interval of an engine made without one, in milliseconds.
pub const DEFAULT_SWEEP_INTERVAL_MS: u64 = 100;

/// The store.
pub struct StorageEngine {
    data: Keyspace,
    expiration: ExpirationManager,
    memory: MemoryTracker,
    now: u64,
    wall_us: u64,
    entropy: u64,
    started_s: Option<u64>,
    sweeper_started: bool,
}

impl View for StorageEngine {
    type V = EngineView;

    closed spec fn view(&self) -> EngineView {
        EngineView {
            entries: self.data@,
            memory: self.memory@,
            schedule: self.expiration@,
            now: self.now,
            wall_us: self.wall_us,
            entropy: self.entropy,
            started_s: self.started_s,
            sweep_interval_ms: self.expiration.interval(),
            sweeper_started: self.sweeper_started,
        }
    }
}

/// The value that follows `entropy`.
fn step_entropy(entropy: u64) -> (next: u64)
    ensures
        next == next_entropy(entropy),
{
    entropy.wrapping_mul(6364136223846793005u64).wrapping_add(1442695040888963407u64)
}

impl StorageEngine {
    /// The parts of the engine agree with each other.
    pub open spec fn wf(&self) -> bool {
        self@.wf()
    }

    /// An empty engine to be swept every `sweep_interval_ms` milliseconds,
    /// with no memory budget.
    pub fn new(sweep_interval_ms: u64) -> (made: StorageEngine)
        ensures
            made.wf(),
            made@ == EngineView::fresh(sweep_interval_ms, StorageConfig::default_view()),
    {
        StorageEngine::new_with_sweep_interval(sweep_interval_ms)
    }

    /// An empty engine to be swept every `sweep_interval_ms` milliseconds,
    /// with no memory budget.
    pub fn new_with_sweep_interval(sweep_interval_ms: u64) -> (made: StorageEngine)
        ensures
            made.wf(),
            made@ == EngineView::fresh(sweep_interval_ms, StorageConfig::default_view()),
    {
        let made = StorageEngine {
            data: Keyspace::new(),
            expiration: ExpirationManager::new(sweep_interval_ms),
            memory: MemoryTracker::new(),
            now: 0,
            wall_us: 0,
            entropy: 0,
            started_s: None,
            sweeper_started: false,
        };
        assert(made@.entries =~= Map::<Seq<u8>, StoredValueView>::empty());
        made
    }

    /// An empty engine with the memory settings of `config`, swept at the
    /// default interval.
    pub fn with_config(config: StorageConfig) -> (made: StorageEngine)
        ensures
            made.wf(),
            made@ == EngineView::fresh(DEFAULT_SWEEP_INTERVAL_MS, config),
    {
        let mut made = StorageEngine::new_with_sweep_interval(DEFAULT_SWEEP_INTERVAL_MS);
        made.memory.set_maxmemory(config.maxmemory);
        made.memory.set_maxmemory_policy(config.maxmemory_policy);
        made
    }

    /// Takes note of the clocks and of fresh random bits. The monotonic
    /// time never goes back: an earlier reading than the last is ignored.
    pub fn observe(&mut self, now_ms: u64, wall_us: u64, entropy: u64)
        requires
            old(self).wf(),
        ensures
            final(self).wf(),
            final(self)@ == old(self)@.observed(now_ms, wall_us, entropy),
    {
        if now_ms > self.now {
            self.now = now_ms;
        }
        self.wall_us = wall_us;
        self.entropy = entropy;
        if self.started_s.is_none() {
            self.started_s = Some(wall_us / 1_000_000);
        }
    }

    /// Records that the background sweeper has been asked for. Returns
    /// true the first time only: the caller that gets true starts it.
    pub fn start_expiration_sweeper(&mut self) -> (first: bool)
        requires
            old(self).wf(),
        ensures
            final(self).wf(),
            first == !old(self)@.sweeper_started,
            final(self)@ == (EngineView { sweeper_started: true, ..old(self)@ }),
    {
        let first = !self.sweeper_started;
        self.sweeper_started = true;
        first
    }

    /// Takes `key` out of the keyspace, the schedule and the accountant.
    fn remove_entry(&mut self, key: &[u8]) -> (removed: Option<StoredValue>)
        requires
            old(self).wf(),
        ensures
            final(self).wf(),
            final(self)@ == old(self)@.drop_key(key@),
            removed is Some == old(self)@.entries.contains_key(key@),
            removed is Some ==> removed->0@ == old(self)@.entries[key@],
    {
        proof {
            lemma_drop_key(self@, key@);
        }
        let removed = self.data.remove(key);
        self.expiration.cancel_expiration(key);
        self.memory.remove_memory(key);
        removed
    }

    /// Stores `stored` under `key`, which holds no entry.
    fn install(&mut self, key: &[u8], stored: StoredValue)
        requires
            old(self).wf(),
            !old(self)@.entries.contains_key(key@),
            stored@.data.wf(),
            old(self)@.memory.total + entry_cost(key@.len() as int, stored@) <= usize::MAX,
        ensures
            final(self).wf(),
            final(self)@ == old(self)@.put(key@, stored@),
    {
        proof {
            lemma_put(self@, key@, stored@);
            if has_record(self@.memory.records, key@) {
                let at = record_index(self@.memory.records, key@);
                assert(self@.entries.contains_key(self@.memory.records[at].key));
            }
        }
        self.memory.add_memory(key, &stored);
        match stored.expire_at {
            Some(at) => {
                self.expiration.schedule_expiration(copy_bytes(key), at);
            },
            None => {},
        }
        self.data.insert(copy_bytes(key), stored);
    }

    /// Writes `value` under `key` with the deadline `expire_at`,
    /// replacing what the key held.
    ///
    /// The write is refused with `OutOfMemory`, and nothing changes, when
    /// the new entry does not fit the budget and the policy cannot make
    /// room for it. Otherwise keys are evicted as the policy directs until
    /// the entry fits, and the entry is stored. Afterwards the accounted
    /// total is within the budget, unless the entry alone exceeds it and
    /// every other key has been evicted.
    pub fn set(&mut self, key: &[u8], value: RedisData, expire_at: Option<u64>) -> (done: Result<
        (),
        RedisError,
    >)
        requires
            old(self).wf(),
            value@.wf(),
        ensures
            final(self).wf(),
            final(self)@ == old(self)@.write(key@, entry_of(value@, expire_at)),
            done is Err <==> old(self)@.refuses(key@, entry_of(value@, expire_at)),
            done is Err ==> done->Err_0 is OutOfMemory,
            done is Ok ==> final(self)@.entries.contains_key(key@) && final(self)@.entries[key@]
                == entry_of(value@, expire_at),
            done is Ok ==> match old(self)@.memory.config.maxmemory {
                Some(limit) => final(self)@.used() <= limit || (final(self)@.used() == entry_cost(
                    key@.len() as int,
                    entry_of(value@, expire_at),
                ) && !old(self)@.memory.config.maxmemory_policy.is_volatile()
                    && final(self)@.memory.records.len() == 1),
                None => true,
            },
    {
        reveal(EngineView::write);
        reveal(EngineView::refuses);
        let stored = StoredValue { data: value, expire_at };
        let ghost entry = stored@;
        let ghost before = self@;
        assert(entry == entry_of(value@, expire_at));
        let cost = MemoryTracker::cost_of(key, &stored);
        let held = self.memory.charged_size(key);
        let base: usize = self.memory.current_memory() - held;
        let budget = self.memory.get_maxmemory();
        let policy = self.memory.get_maxmemory_policy();
        match budget {
            None => {
                if cost > usize::MAX - base {
                    return Err(RedisError::OutOfMemory);
                }
            },
            Some(limit) => {
                if cost > usize::MAX - base || base + cost > limit {
                    if matches!(policy, MaxMemoryPolicy::NoEviction) {
                        return Err(RedisError::OutOfMemory);
                    }
                    if policy.is_volatile() {
                        let free = self.memory.reclaimable_except(key);
                        let rest: usize = base - free;
                        if cost > usize::MAX - rest || rest + cost > limit {
                            return Err(RedisError::OutOfMemory);
                        }
                    }
                }
            },
        }
        assert(!before.refuses(key@, entry));
        self.remove_entry(key);
        let ghost dropped = self@;
        assert(dropped == before.drop_key(key@));
        proof {
            lemma_drop_key(before, key@);
        }
        match budget {
            Some(limit) => {
                let mut searching = true;
                proof {
                    lemma_reclaimable_bounds(self@.memory.records, true);
                }
                while searching && self.memory.check_eviction_needed(cost)
                    invariant
                        self.wf(),
                        !self@.entries.contains_key(key@),
                        self@.memory.config == before.memory.config,
                        policy == before.memory.config.maxmemory_policy,
                        before.memory.config.maxmemory == Some(limit),
                        self@.evict_until_fits(cost, limit) == dropped.evict_until_fits(cost, limit),
                        !searching ==> victim(policy, self@.memory.records, self@.entropy) is None,
                        policy.is_volatile() ==> self@.memory.total + cost - reclaimable_size(
                            self@.memory.records,
                            true,
                        ) <= limit,
                    decreases self@.memory.records.len(), if searching { 1int } else { 0int },
                {
                    let ghost here = self@;
                    proof {
                        lemma_victim(policy, here.memory.records, here.entropy);
                    }
                    match self.memory.evict_one(self.entropy) {
                        None => {
                            searching = false;
                        },
                        Some(gone) => {
                            proof {
                                lemma_drop_key(here, gone@);
                                let at = record_index(here.memory.records, gone@);
                                assert(here.entries.contains_key(here.memory.records[at].key));
                                lemma_record_index_unique(here.memory.records, at);
                                lemma_reclaimable_remove(here.memory.records, at, true);
                            }
                            self.remove_entry(gone.as_slice());
                            self.entropy = step_entropy(self.entropy);
                            assert(self@ == (EngineView {
                                entropy: next_entropy(here.entropy),
                                ..here.drop_key(gone@)
                            }));
                        },
                    }
                }
                proof {
                    lemma_victim(policy, self@.memory.records, self@.entropy);
                    lemma_reclaimable_bounds(self@.memory.records, true);
                    if !(self@.memory.total + cost <= limit) {
                        if !policy.is_volatile() {
                            assert(self@.memory.records.len() == 0);
                        }
                    }
                }
            },
            None => {},
        }
        let ghost room = self@;
        self.install(key, stored);
        proof {
            lemma_put(room, key@, entry);
            assert(self@.entries[key@] == entry);
        }
        Ok(())
    }

    /// A copy of the entry that `key` holds. An entry whose deadline has
    /// been reached is purged instead and reported absent; any other is
    /// noted as read by the accountant.
    pub fn get(&mut self, key: &[u8]) -> (found: Option<StoredValue>)
        requires
            old(self).wf(),
        ensures
            final(self).wf(),
            final(self)@ == old(self)@.read(key@),
            found is Some == old(self)@.live(key@) is Some,
            found is Some ==> found->0@ == old(self)@.live(key@)->0,
            found is Some ==> found->0@.data.wf(),
    {
        match self.data.get(key) {
            None => {
                proof {
                    lemma_touch(self@, key@);
                    if has_record(self@.memory.records, key@) {
                        let at = record_index(self@.memory.records, key@);
                        assert(self@.entries.contains_key(self@.memory.records[at].key));
                    }
                }
                None
            },
            Some(entry) => {
                if entry.is_expired(self.now) {
                    proof {
                        lemma_drop_key(self@, key@);
                        lemma_touch(self@.drop_key(key@), key@);
                    }
                    self.remove_entry(key);
                    proof {
                        if has_record(self@.memory.records, key@) {
                            let at = record_index(self@.memory.records, key@);
                            assert(self@.entries.contains_key(self@.memory.records[at].key));
                        }
                    }
                    None
                } else {
                    proof {
                        lemma_touch(self@, key@);
                    }
                    self.memory.record_read(key);
                    Some(entry)
                }
            },
        }
    }

    /// A copy of the entry under `key`, whether or not its deadline has
    /// been reached. Nothing changes.
    pub fn fetch(&self, key: &[u8]) -> (found: Option<StoredValue>)
        requires
            self.wf(),
        ensures
            found is Some == self@.entries.contains_key(key@),
            found is Some ==> found->0@ == self@.entries[key@] && found->0@.data.wf(),
    {
        self.data.get(key)
    }

    /// Purges the entry under `key` if its deadline has been reached.
    pub fn purge_expired(&mut self, key: &[u8])
        requires
            old(self).wf(),
        ensures
            final(self).wf(),
            final(self)@ == old(self)@.purge(key@),
    {
        match self.data.get(key) {
            None => {},
            Some(entry) => {
                if entry.is_expired(self.now) {
                    self.remove_entry(key);
                }
            },
        }
    }

    /// Removes `key`. Returns whether it held a live entry.
    pub fn remove(&mut self, key: &[u8]) -> (removed: bool)
        requires
            old(self).wf(),
        ensures
            final(self).wf(),
            final(self)@ == old(self)@.drop_key(key@),
            removed == old(self)@.live(key@) is Some,
    {
        match self.remove_entry(key) {
            Some(entry) => !entry.is_expired(self.now),
            None => false,
        }
    }

    /// Whether `key` holds a live entry. An entry whose deadline has been
    /// reached is purged.
    pub fn key_exists(&mut self, key: &[u8]) -> (found: bool)
        requires
            old(self).wf(),
        ensures
            final(self).wf(),
            final(self)@ == old(self)@.purge(key@),
            found == old(self)@.live(key@) is Some,
    {
        self.purge_expired(key);
        self.data.contains_key(key)
    }

    /// Number of keys held, those past their deadline but not yet purged
    /// included.
    pub fn len(&self) -> (count: usize)
        ensures
            count == self@.entries.dom().len(),
    {
        self.data.len()
    }

    /// Whether no key is held.
    pub fn is_empty(&self) -> (empty: bool)
        ensures
            empty == (self@.entries.dom().len() == 0),
    {
        self.data.len() == 0
    }

    /// Every key held, once, in no particular order.
    pub fn keys(&self) -> (keys: Vec<Vec<u8>>)
        ensures
            list_view(keys@).no_duplicates(),
            list_view(keys@).to_set() == self@.entries.dom(),
    {
        self.data.keys()
    }

    /// Drops every key and resets the accountant and the schedule.
    pub fn flush(&mut self)
        ensures
            final(self).wf(),
            final(self)@ == old(self)@.flushed(),
    {
        self.data.clear();
        self.expiration.clear_all();
        self.memory.reset();
        assert(self@.entries =~= Map::<Seq<u8>, StoredValueView>::empty());
    }

    /// Removes every key whose deadline has been reached. Returns how
    /// many were removed.
    pub fn sweep(&mut self) -> (count: usize)
        requires
            old(self).wf(),
        ensures
            final(self).wf(),
            final(self)@ == old(self)@.swept(),
            count == old(self)@.swept_count(),
            forall|k: Seq<u8>| #[trigger]
                final(self)@.entries.contains_key(k) ==> !final(self)@.is_expired(k),
    {
        let mut count: usize = 0;
        let ghost before = self@;
        let scheduled = self.expiration.len();
        loop
            invariant
                self.wf(),
                self@.swept() == before.swept(),
                count + self@.swept_count() == before.swept_count(),
                count + self@.schedule.len() <= before.schedule.len(),
                before.schedule.len() == scheduled,
            ensures
                self.wf(),
                self@ == before.swept(),
                count == before.swept_count(),
                self@.schedule.len() == 0 || self@.schedule[0].0 > self@.now,
            decreases self@.schedule.len(),
        {
            let ghost here = self@;
            match self.expiration.first_due(self.now) {
                None => {
                    break ;
                },
                Some(key) => {
                    proof {
                        lemma_drop_key(here, key@);
                        lemma_filter_len_strict(here.schedule, of_other_key(key@), 0);
                    }
                    self.remove_entry(key.as_slice());
                    count = count + 1;
                },
            }
        }
        proof {
            let after = self@;
            assert forall|k: Seq<u8>| #[trigger] after.entries.contains_key(k) implies !after.is_expired(
                k,
            ) by {
                if after.entries[k].expire_at is Some {
                    let e = (after.entries[k].expire_at->0, k);
                    assert(after.schedule.contains(e));
                    let i = choose|i: int| 0 <= i < after.schedule.len() && after.schedule[i] == e;
                    if i > 0 {
                        assert(after.schedule[0].0 <= after.schedule[i].0);
                    }
                }
            }
        }
        count
    }

    /// Gives the live entry under `key` a deadline `duration_ms`
    /// milliseconds from now. Returns whether there was such an entry.
    pub fn set_expiry(&mut self, key: &[u8], duration_ms: u64) -> (set: bool)
        requires
            old(self).wf(),
        ensures
            final(self).wf(),
            set == old(self)@.live(key@) is Some,
            final(self)@ == old(self)@.with_expiry(key@, Some(deadline_after(old(self)@.now, duration_ms))),
    {
        let deadline = self.now.saturating_add(duration_ms);
        self.set_deadline(key, Some(deadline))
    }

    /// Clears the deadline of the live entry under `key`. Returns whether
    /// there was such an entry.
    pub fn persist(&mut self, key: &[u8]) -> (cleared: bool)
        requires
            old(self).wf(),
        ensures
            final(self).wf(),
            cleared == old(self)@.live(key@) is Some,
            final(self)@ == old(self)@.with_expiry(key@, None),
    {
        self.set_deadline(key, None)
    }

    /// Replaces the deadline of the live entry under `key`. An entry that
    /// already has this deadline is left as it is.
    pub fn set_deadline(&mut self, key: &[u8], expire_at: Option<u64>) -> (set: bool)
        requires
            old(self).wf(),
        ensures
            final(self).wf(),
            set == old(self)@.live(key@) is Some,
            final(self)@ == old(self)@.with_expiry(key@, expire_at),
    {
        self.purge_expired(key);
        let ghost purged = self@;
        match self.data.get(key) {
            None => false,
            Some(entry) => {
                let same = match (entry.expire_at, expire_at) {
                    (Some(a), Some(b)) => a == b,
                    (None, None) => true,
                    _ => false,
                };
                if !same {
                    proof {
                        lemma_drop_key(purged, key@);
                    }
                    self.remove_entry(key);
                    let renewed = StoredValue { data: entry.data, expire_at };
                    self.install(key, renewed);
                }
                true
            },
        }
    }

    /// Milliseconds until the live entry under `key` expires; `None` if
    /// there is no such entry or it has no deadline. An entry whose
    /// deadline has been reached is purged.
    pub fn ttl(&mut self, key: &[u8]) -> (left: Option<u64>)
        requires
            old(self).wf(),
        ensures
            final(self).wf(),
            final(self)@ == old(self)@.purge(key@),
            left == old(self)@.remaining(key@),
    {
        self.purge_expired(key);
        match self.data.get(key) {
            None => None,
            Some(entry) => match entry.expire_at {
                Some(at) => Some(at - self.now),
                None => None,
            },
        }
    }

    /// Seconds until the live entry under `key` expires, rounded down;
    /// `-1` if it has no deadline, `-2` if there is no such entry. An
    /// entry whose deadline has been reached is purged.
    pub fn ttl_query(&mut self, key: &[u8]) -> (left: i64)
        requires
            old(self).wf(),
        ensures
            final(self).wf(),
            final(self)@ == old(self)@.purge(key@),
            left == old(self)@.ttl_reply(key@, 1000),
    {
        self.pttl_query(key, 1000)
    }

    /// Time until the live entry under `key` expires, in units of `unit`
    /// milliseconds, rounded down; `-1` if it has no deadline, `-2` if
    /// there is no such entry.
    pub fn pttl_query(&mut self, key: &[u8], unit: u64) -> (left: i64)
        requires
            old(self).wf(),
            unit > 0,
        ensures
            final(self).wf(),
            final(self)@ == old(self)@.purge(key@),
            left == old(self)@.ttl_reply(key@, unit as int),
    {
        self.purge_expired(key);
        match self.data.get(key) {
            None => -2,
            Some(entry) => match entry.expire_at {
                Some(at) => {
                    let left: u64 = (at - self.now) / unit;
                    if left > i64::MAX as u64 {
                        i64::MAX
                    } else {
                        left as i64
                    }
                },
                None => -1,
            },
        }
    }

    /// Sets the memory budget to `maxmemory` bytes. Nothing is evicted
    /// until the next write.
    pub fn set_maxmemory(&mut self, maxmemory: usize)
        requires
            old(self).wf(),
        ensures
            final(self).wf(),
            final(self)@ == old(self)@.with_config(
                old(self)@.memory.config.with_budget(Some(maxmemory)),
            ),
    {
        self.memory.set_maxmemory(Some(maxmemory));
    }

    /// Sets what to do when a write does not fit the budget.
    pub fn set_maxmemory_policy(&mut self, policy: MaxMemoryPolicy)
        requires
            old(self).wf(),
        ensures
            final(self).wf(),
            final(self)@ == old(self)@.with_config(old(self)@.memory.config.with_policy(policy)),
    {
        self.memory.set_maxmemory_policy(policy);
    }

    /// The memory budget in bytes, if one is set.
    pub fn get_maxmemory(&self) -> (maxmemory: Option<usize>)
        ensures
            maxmemory == self@.memory.config.maxmemory,
    {
        self.memory.get_maxmemory()
    }

    /// What is done when a write does not fit the budget.
    pub fn get_maxmemory_policy(&self) -> (policy: MaxMemoryPolicy)
        ensures
            policy == self@.memory.config.maxmemory_policy,
    {
        self.memory.get_maxmemory_policy()
    }

    /// Bytes accounted for.
    pub fn current_memory_usage(&self) -> (used: usize)
        ensures
            used == self@.used(),
    {
        self.memory.current_memory()
    }

    /// The monotonic time last observed, in milliseconds.
    pub fn now_ms(&self) -> (now: u64)
        ensures
            now == self@.now,
    {
        self.now
    }

    /// The wall-clock time last observed, in microseconds since the epoch.
    pub fn wall_clock_us(&self) -> (wall: u64)
        ensures
            wall == self@.wall_us,
    {
        self.wall_us
    }

    /// The wall-clock time first observed, in seconds since the epoch;
    /// zero before any observation.
    pub fn started_at(&self) -> (started: u64)
        ensures
            started == match self@.started_s {
                Some(s) => s,
                None => 0,
            },
    {
        match self.started_s {
            Some(s) => s,
            None => 0,
        }
    }

    /// Milliseconds between two background sweeps.
    pub fn sweep_interval_ms(&self) -> (ms: u64)
        ensures
            ms == self@.sweep_interval_ms,
    {
        self.expiration.sweep_interval()
    }
}

/// The deadline `duration_ms` milliseconds after `now`, or the end of
/// time if that lies beyond it.
pub open spec fn deadline_after(now: u64, duration_ms: u64) -> u64 {
    if now + duration_ms > u64::MAX {
        u64::MAX
    } else {
        (now + duration_ms) as u64
    }
}

impl Default for StorageEngine {
    fn default() -> (made: StorageEngine)
        ensures
            made.wf(),
            made@ == EngineView::fresh(DEFAULT_SWEEP_INTERVAL_MS, StorageConfig::default_view()),
    {
        StorageEngine::new(DEFAULT_SWEEP_INTERVAL_MS)
    }
}

} // verus!
