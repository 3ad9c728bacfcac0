//! The memory accountant: a running byte total, per-key access records
//! and the choice of a victim when the budget is exceeded.

use vstd::prelude::*;
use crate::bytes::{bytes_eq, copy_bytes};
use crate::config::{MaxMemoryPolicy, StorageConfig};
use crate::seqs::{lemma_filter_all, lemma_filter_members, lemma_filter_prefix, lemma_filter_push};
use crate::types::{StoredValue, StoredValueView, clamp};

verus! {

/// Bytes charged for each key on top of the key itself and its value.
pub const KEY_OVERHEAD: usize = 50;

/// Access counter given to a key when it is first credited.
pub const COUNTER_INIT: u32 = 5;

/// Bytes charged for an entry stored under a key of `key_len` bytes.
pub open spec fn entry_cost(key_len: int, value: StoredValueView) -> usize {
    clamp(key_len + KEY_OVERHEAD + value.data.estimated_size())
}

/// What the accountant remembers about one key.
pub struct AccessRecordView {
    pub key: Seq<u8>,
    /// Bytes charged for the key's entry.
    pub size: usize,
    /// The entry's deadline when it was credited.
    pub expire_at: Option<u64>,
    /// How often the key was read, saturating.
    pub count: u32,
}

/// Sum of the sizes charged to `records`.
pub open spec fn total_size(records: Seq<AccessRecordView>) -> int
    decreases records.len(),
{
    if records.len() == 0 {
        0
    } else {
        total_size(records.drop_last()) + records.last().size
    }
}

/// Whether `key` has a record.
pub open spec fn has_record(records: Seq<AccessRecordView>, key: Seq<u8>) -> bool {
    exists|i: int| 0 <= i < records.len() && (#[trigger] records[i]).key == key
}

/// Position of the record of `key`; meaningful when there is one.
pub open spec fn record_index(records: Seq<AccessRecordView>, key: Seq<u8>) -> int {
    choose|i: int| 0 <= i < records.len() && (#[trigger] records[i]).key == key
}

/// No key has two records.
pub open spec fn distinct_keys(records: Seq<AccessRecordView>) -> bool {
    forall|i: int, j: int|
        0 <= i < records.len() && 0 <= j < records.len() && i != j ==> (#[trigger] records[i]).key
            != (#[trigger] records[j]).key
}

/// The records without that of `key`.
pub open spec fn without_record(
    records: Seq<AccessRecordView>,
    key: Seq<u8>,
) -> Seq<AccessRecordView> {
    if has_record(records, key) {
        records.remove(record_index(records, key))
    } else {
        records
    }
}

/// Bytes charged for `key`, zero if it has no record.
pub open spec fn charged(records: Seq<AccessRecordView>, key: Seq<u8>) -> usize {
    if has_record(records, key) {
        records[record_index(records, key)].size
    } else {
        0
    }
}

/// The records after `key` has been credited with an entry of `size`
/// bytes: its record moves to the most recent end, keeping its counter.
pub open spec fn credited(
    records: Seq<AccessRecordView>,
    key: Seq<u8>,
    size: usize,
    expire_at: Option<u64>,
) -> Seq<AccessRecordView> {
    let count = if has_record(records, key) {
        records[record_index(records, key)].count
    } else {
        COUNTER_INIT
    };
    without_record(records, key).push(AccessRecordView { key, size, expire_at, count })
}

/// A record after one more read.
pub open spec fn bumped(record: AccessRecordView) -> AccessRecordView {
    AccessRecordView {
        count: if record.count == u32::MAX {
            u32::MAX
        } else {
            (record.count + 1) as u32
        },
        ..record
    }
}

/// The records after a read of `key` under `policy`: recency policies
/// move the record to the most recent end, frequency policies count the
/// read, the others take no note.
pub open spec fn touched(
    records: Seq<AccessRecordView>,
    policy: MaxMemoryPolicy,
    key: Seq<u8>,
) -> Seq<
    AccessRecordView,
> {
    if !has_record(records, key) {
        records
    } else {
        let at = record_index(records, key);
        if policy.is_lru() {
            records.remove(at).push(records[at])
        } else if policy.is_lfu() {
            records.update(at, bumped(records[at]))
        } else {
            records
        }
    }
}

/// Whether a record may be evicted: under a volatile policy only keys
/// with a deadline may.
pub open spec fn eligible(record: AccessRecordView, volatile_only: bool) -> bool {
    !volatile_only || record.expire_at is Some
}

/// The test that a record may be evicted.
pub open spec fn may_evict(volatile_only: bool) -> spec_fn(AccessRecordView) -> bool {
    |r: AccessRecordView| eligible(r, volatile_only)
}

/// The records that may be evicted, least recent first.
pub open spec fn candidates(records: Seq<AccessRecordView>, volatile_only: bool) -> Seq<
    AccessRecordView,
> {
    records.filter(may_evict(volatile_only))
}

/// Rank of a record under a policy that evicts the lowest rank: the
/// access counter for frequency policies, the deadline otherwise.
pub open spec fn rank(record: AccessRecordView, by_count: bool) -> int {
    if by_count {
        record.count as int
    } else {
        match record.expire_at {
            Some(at) => at as int,
            None => u64::MAX + 1,
        }
    }
}

/// Position, among the first `n` of `items`, of the first record of
/// lowest rank.
pub open spec fn lowest(items: Seq<AccessRecordView>, by_count: bool, n: int) -> int
    decreases n,
{
    if n <= 1 {
        0
    } else {
        let best = lowest(items, by_count, n - 1);
        if rank(items[n - 1], by_count) < rank(items[best], by_count) {
            n - 1
        } else {
            best
        }
    }
}

/// The key to evict next, if there is one: among the candidates, the
/// least recent (LRU), the one with the lowest counter (LFU), the one
/// with the earliest deadline (TTL), or the one that `entropy` points
/// at (random). Ties go to the less recently accessed key.
pub open spec fn victim(
    policy: MaxMemoryPolicy,
    records: Seq<AccessRecordView>,
    entropy: u64,
) -> Option<
    Seq<u8>,
> {
    let pool = candidates(records, policy.is_volatile());
    if policy is NoEviction || pool.len() == 0 {
        None
    } else if policy.is_lru() {
        Some(pool[0].key)
    } else if policy.is_random() {
        Some(pool[entropy as int % pool.len() as int].key)
    } else {
        Some(pool[lowest(pool, policy.is_lfu(), pool.len() as int)].key)
    }
}

/// The sum charged to the records that may be evicted.
pub open spec fn reclaimable_size(records: Seq<AccessRecordView>, volatile_only: bool) -> int {
    total_size(candidates(records, volatile_only))
}

/// Adding a record adds its size to the total.
pub proof fn lemma_total_size_push(records: Seq<AccessRecordView>, record: AccessRecordView)
    ensures
        total_size(records.push(record)) == total_size(records) + record.size,
{
    assert(records.push(record).drop_last() =~= records);
}

/// Every size is part of the total.
pub proof fn lemma_total_size_bounds(records: Seq<AccessRecordView>, i: int)
    requires
        0 <= i < records.len(),
    ensures
        0 <= records[i].size <= total_size(records),
        total_size(records.remove(i)) == total_size(records) - records[i].size,
    decreases records.len(),
{
    lemma_total_size_nonnegative(records.drop_last());
    if i == records.len() - 1 {
        assert(records.remove(i) =~= records.drop_last());
    } else {
        lemma_total_size_bounds(records.drop_last(), i);
        assert(records.remove(i) =~= records.drop_last().remove(i).push(records.last()));
        lemma_total_size_push(records.drop_last().remove(i), records.last());
    }
}

/// The total is never negative.
pub proof fn lemma_total_size_nonnegative(records: Seq<AccessRecordView>)
    ensures
        0 <= total_size(records),
    decreases records.len(),
{
    if records.len() > 0 {
        lemma_total_size_nonnegative(records.drop_last());
    }
}

/// Replacing a record by one of the same size leaves the total as it was.
pub proof fn lemma_total_size_update(
    records: Seq<AccessRecordView>,
    i: int,
    record: AccessRecordView,
)
    requires
        0 <= i < records.len(),
        record.size == records[i].size,
    ensures
        total_size(records.update(i, record)) == total_size(records),
    decreases records.len(),
{
    if i == records.len() - 1 {
        assert(records.update(i, record).drop_last() =~= records.drop_last());
    } else {
        lemma_total_size_update(records.drop_last(), i, record);
        assert(records.update(i, record).drop_last() =~= records.drop_last().update(i, record));
    }
}

/// Taking one record away lowers the reclaimable sum by that record's
/// size if the record could be evicted, and not at all otherwise.
pub proof fn lemma_reclaimable_remove(records: Seq<AccessRecordView>, i: int, volatile_only: bool)
    requires
        0 <= i < records.len(),
    ensures
        reclaimable_size(records.remove(i), volatile_only) == reclaimable_size(
            records,
            volatile_only,
        ) - if eligible(records[i], volatile_only) {
            records[i].size as int
        } else {
            0
        },
        0 <= reclaimable_size(records, volatile_only) <= total_size(records),
    decreases records.len(),
{
    let keep = may_evict(volatile_only);
    let front = records.drop_last();
    let last = records.last();
    assert(records =~= front.push(last));
    lemma_filter_push(front, keep, last);
    lemma_total_size_push(front.filter(keep), last);
    lemma_reclaimable_bounds(front, volatile_only);
    if i == records.len() - 1 {
        assert(records.remove(i) =~= front);
    } else {
        lemma_reclaimable_remove(front, i, volatile_only);
        assert(records.remove(i) =~= front.remove(i).push(last));
        lemma_filter_push(front.remove(i), keep, last);
        lemma_total_size_push(front.remove(i).filter(keep), last);
    }
}

/// The reclaimable sum lies between zero and the total.
pub proof fn lemma_reclaimable_bounds(records: Seq<AccessRecordView>, volatile_only: bool)
    ensures
        0 <= reclaimable_size(records, volatile_only) <= total_size(records),
    decreases records.len(),
{
    let keep = may_evict(volatile_only);
    if records.len() == 0 {
        assert(records.filter(keep) =~= records) by {
            reveal(Seq::filter);
        }
    } else {
        let front = records.drop_last();
        let last = records.last();
        assert(records =~= front.push(last));
        lemma_filter_push(front, keep, last);
        lemma_total_size_push(front.filter(keep), last);
        lemma_reclaimable_bounds(front, volatile_only);
    }
}

/// A victim is one of the keys on record.
pub proof fn lemma_victim_is_on_record(
    policy: MaxMemoryPolicy,
    records: Seq<AccessRecordView>,
    entropy: u64,
)
    ensures
        victim(policy, records, entropy) matches Some(key) ==> has_record(records, key)
            && without_record(records, key).len() < records.len(),
{
    let pool = candidates(records, policy.is_volatile());
    lemma_filter_members(records, may_evict(policy.is_volatile()));
    if !(policy is NoEviction) && pool.len() > 0 {
        let at = if policy.is_lru() {
            0
        } else if policy.is_random() {
            entropy as int % pool.len() as int
        } else {
            lowest(pool, policy.is_lfu(), pool.len() as int)
        };
        if !policy.is_lru() && !policy.is_random() {
            lemma_lowest(pool, policy.is_lfu(), pool.len() as int);
        }
        assert(pool.contains(pool[at]));
        assert(records.contains(pool[at]));
        let m = choose|m: int| 0 <= m < records.len() && records[m] == pool[at];
        assert(records[m].key == pool[at].key);
    }
}

/// A victim is a key on record that may be evicted; there is none only
/// if the policy never evicts or no key may be evicted.
pub proof fn lemma_victim(policy: MaxMemoryPolicy, records: Seq<AccessRecordView>, entropy: u64)
    requires
        distinct_keys(records),
    ensures
        match victim(policy, records, entropy) {
            Some(key) => has_record(records, key) && eligible(
                records[record_index(records, key)],
                policy.is_volatile(),
            ),
            None => policy is NoEviction || candidates(records, policy.is_volatile()).len() == 0,
        },
        !policy.is_volatile() ==> candidates(records, false) == records,
{
    let pool = candidates(records, policy.is_volatile());
    lemma_filter_members(records, may_evict(policy.is_volatile()));
    if !policy.is_volatile() {
        lemma_filter_all(records, may_evict(false));
    }
    if !(policy is NoEviction) && pool.len() > 0 {
        let at = if policy.is_lru() {
            0
        } else if policy.is_random() {
            entropy as int % pool.len() as int
        } else {
            lowest(pool, policy.is_lfu(), pool.len() as int)
        };
        if !policy.is_lru() && !policy.is_random() {
            lemma_lowest(pool, policy.is_lfu(), pool.len() as int);
        }
        assert(pool.contains(pool[at]));
        assert(records.contains(pool[at]));
        let m = choose|m: int| 0 <= m < records.len() && records[m] == pool[at];
        lemma_record_index_unique(records, m);
    }
}

/// In records with distinct keys, a key is found at one position only.
pub proof fn lemma_record_index_unique(records: Seq<AccessRecordView>, i: int)
    requires
        distinct_keys(records),
        0 <= i < records.len(),
    ensures
        has_record(records, records[i].key),
        record_index(records, records[i].key) == i,
{
    let key = records[i].key;
    assert(0 <= i < records.len() && records[i].key == key);
    let j = record_index(records, key);
    assert(0 <= j < records.len() && records[j].key == key);
}

/// The first record of lowest rank lies among those examined, and none
/// of them ranks lower.
pub proof fn lemma_lowest(items: Seq<AccessRecordView>, by_count: bool, n: int)
    requires
        1 <= n <= items.len(),
    ensures
        0 <= lowest(items, by_count, n) < n,
        forall|j: int|
            0 <= j < n ==> rank(items[lowest(items, by_count, n)], by_count) <= rank(
                #[trigger] items[j],
                by_count,
            ),
        forall|j: int|
            0 <= j < lowest(items, by_count, n) ==> rank(
                items[lowest(items, by_count, n)],
                by_count,
            ) < rank(#[trigger] items[j], by_count),
    decreases n,
{
    if n > 1 {
        lemma_lowest(items, by_count, n - 1);
    }
}

struct AccessRecord {
    key: Vec<u8>,
    size: usize,
    expire_at: Option<u64>,
    count: u32,
}

impl View for AccessRecord {
    type V = AccessRecordView;

    closed spec fn view(&self) -> AccessRecordView {
        AccessRecordView {
            key: self.key@,
            size: self.size,
            expire_at: self.expire_at,
            count: self.count,
        }
    }
}

/// The accountant's state as plain mathematical data.
pub struct MemoryTrackerView {
    pub config: StorageConfig,
    /// Bytes currently accounted for.
    pub total: usize,
    /// One record per key, least recently accessed first.
    pub records: Seq<AccessRecordView>,
}

/// Tracks how many bytes the stored entries are charged for and which
/// key to give up when the budget is exceeded.
pub struct MemoryTracker {
    config: StorageConfig,
    total_memory: usize,
    records: Vec<AccessRecord>,
}

impl View for MemoryTracker {
    type V = MemoryTrackerView;

    closed spec fn view(&self) -> MemoryTrackerView {
        MemoryTrackerView {
            config: self.config,
            total: self.total_memory,
            records: self.records@.map_values(|r: AccessRecord| r@),
        }
    }
}

impl MemoryTracker {
    /// No key has two records, and the total is the sum of the sizes
    /// charged to the keys on record.
    pub open spec fn wf(&self) -> bool {
        &&& distinct_keys(self@.records)
        &&& self@.total == total_size(self@.records)
    }

    /// Nothing on record, no budget, no eviction.
    pub fn new() -> (made: MemoryTracker)
        ensures
            made.wf(),
            made@.config == StorageConfig::default_view(),
            made@.total == 0,
            made@.records == Seq::<AccessRecordView>::empty(),
    {
        let made = MemoryTracker {
            config: StorageConfig::new(),
            total_memory: 0,
            records: Vec::new(),
        };
        assert(made@.records =~= Seq::<AccessRecordView>::empty());
        made
    }

    /// Sets the memory budget; `None` lifts it.
    pub fn set_maxmemory(&mut self, maxmemory: Option<usize>)
        ensures
            final(self)@ == (MemoryTrackerView {
                config: StorageConfig { maxmemory, ..old(self)@.config },
                ..old(self)@
            }),
    {
        self.config.maxmemory = maxmemory;
    }

    /// Sets the eviction policy.
    pub fn set_maxmemory_policy(&mut self, policy: MaxMemoryPolicy)
        ensures
            final(self)@ == (MemoryTrackerView {
                config: StorageConfig { maxmemory_policy: policy, ..old(self)@.config },
                ..old(self)@
            }),
    {
        self.config.maxmemory_policy = policy;
    }

    /// The memory budget in bytes, if one is set.
    pub fn get_maxmemory(&self) -> (maxmemory: Option<usize>)
        ensures
            maxmemory == self@.config.maxmemory,
    {
        self.config.maxmemory
    }

    /// The eviction policy.
    pub fn get_maxmemory_policy(&self) -> (policy: MaxMemoryPolicy)
        ensures
            policy == self@.config.maxmemory_policy,
    {
        self.config.maxmemory_policy
    }

    /// Bytes currently accounted for.
    pub fn current_memory(&self) -> (total: usize)
        ensures
            total == self@.total,
    {
        self.total_memory
    }

    /// Whether a budget is configured.
    pub fn is_enabled(&self) -> (enabled: bool)
        ensures
            enabled == self@.config.maxmemory is Some,
    {
        self.config.maxmemory.is_some()
    }

    /// Number of keys on record.
    pub fn record_count(&self) -> (n: usize)
        ensures
            n == self@.records.len(),
    {
        self.records.len()
    }

    /// Position of the record of `key`, if there is one.
    fn position(&self, key: &[u8]) -> (at: Option<usize>)
        ensures
            match at {
                Some(i) => i < self@.records.len() && self@.records[i as int].key == key@,
                None => !has_record(self@.records, key@),
            },
    {
        let mut i: usize = 0;
        while i < self.records.len()
            invariant
                i <= self.records.len(),
                forall|j: int| 0 <= j < i ==> (#[trigger] self@.records[j]).key != key@,
            decreases self.records.len() - i,
        {
            if bytes_eq(self.records[i].key.as_slice(), key) {
                return Some(i);
            }
            i += 1;
        }
        None
    }

    /// Bytes charged for `key`, zero if it has no record.
    pub fn charged_size(&self, key: &[u8]) -> (size: usize)
        requires
            self.wf(),
        ensures
            size == charged(self@.records, key@),
            size <= self@.total,
    {
        match self.position(key) {
            Some(i) => {
                proof {
                    lemma_record_index_unique(self@.records, i as int);
                    lemma_total_size_bounds(self@.records, i as int);
                }
                self.records[i].size
            },
            None => 0,
        }
    }

    /// Bytes that an entry stored under `key` is charged for.
    pub fn cost_of(key: &[u8], value: &StoredValue) -> (size: usize)
        ensures
            size == entry_cost(key@.len() as int, value@),
    {
        value.data.estimated_size().saturating_add(key.len()).saturating_add(KEY_OVERHEAD)
    }

    /// Drops the record of `key` from the access order, leaving the total
    /// as it is. Returns the size and the counter that the record held.
    fn remove_from_tracking(&mut self, key: &[u8]) -> (held: Option<(usize, u32)>)
        requires
            old(self).wf(),
        ensures
            distinct_keys(final(self)@.records),
            final(self)@.config == old(self)@.config,
            final(self)@.total == old(self)@.total,
            final(self)@.records == without_record(old(self)@.records, key@),
            match held {
                Some(pair) => has_record(old(self)@.records, key@) && pair.0 == charged(
                    old(self)@.records,
                    key@,
                ) && pair.1 == old(self)@.records[record_index(old(self)@.records, key@)].count
                    && total_size(final(self)@.records) == old(self)@.total - pair.0 && pair.0
                    <= old(self)@.total,
                None => !has_record(old(self)@.records, key@),
            },
    {
        let ghost before = self@.records;
        match self.position(key) {
            Some(i) => {
                proof {
                    lemma_record_index_unique(before, i as int);
                    lemma_total_size_bounds(before, i as int);
                }
                let record = self.records.remove(i);
                assert(self@.records =~= before.remove(i as int));
                Some((record.size, record.count))
            },
            None => None,
        }
    }

    /// Credits the entry `value` stored under `key`: the total grows by
    /// its cost, less what the key was charged for before, and the key
    /// becomes the most recently accessed. Returns the cost.
    pub fn add_memory(&mut self, key: &[u8], value: &StoredValue) -> (size: usize)
        requires
            old(self).wf(),
            old(self)@.total - charged(old(self)@.records, key@) + entry_cost(
                key@.len() as int,
                value@,
            ) <= usize::MAX,
        ensures
            final(self).wf(),
            size == entry_cost(key@.len() as int, value@),
            final(self)@.config == old(self)@.config,
            final(self)@.total == old(self)@.total - charged(old(self)@.records, key@) + size,
            final(self)@.records == credited(old(self)@.records, key@, size, value@.expire_at),
    {
        let size = MemoryTracker::cost_of(key, value);
        let count = match self.remove_from_tracking(key) {
            Some((held, count)) => {
                self.total_memory = self.total_memory - held;
                count
            },
            None => COUNTER_INIT,
        };
        let ghost rest = self@.records;
        let record = AccessRecord { key: copy_bytes(key), size, expire_at: value.expire_at, count };
        proof {
            lemma_total_size_push(rest, record@);
        }
        self.records.push(record);
        assert(self@.records =~= rest.push(record@));
        self.total_memory = self.total_memory + size;
        size
    }

    /// Debits what `key` was charged for and forgets the key. Returns
    /// the bytes freed.
    pub fn remove_memory(&mut self, key: &[u8]) -> (freed: usize)
        requires
            old(self).wf(),
        ensures
            final(self).wf(),
            freed == charged(old(self)@.records, key@),
            final(self)@.config == old(self)@.config,
            final(self)@.total == old(self)@.total - freed,
            final(self)@.records == without_record(old(self)@.records, key@),
    {
        match self.remove_from_tracking(key) {
            Some((held, _)) => {
                self.total_memory = self.total_memory - held;
                held
            },
            None => 0,
        }
    }

    /// Forgets every key and resets the total.
    pub fn reset(&mut self)
        ensures
            final(self).wf(),
            final(self)@.config == old(self)@.config,
            final(self)@.total == 0,
            final(self)@.records == Seq::<AccessRecordView>::empty(),
    {
        self.records.clear();
        self.total_memory = 0;
        assert(self@.records =~= Seq::<AccessRecordView>::empty());
    }

    /// Whether a write that adds `pending` bytes calls for eviction: a
    /// budget is set, the write would exceed it, and the policy evicts.
    pub fn check_eviction_needed(&self, pending: usize) -> (needed: bool)
        ensures
            needed == match self@.config.maxmemory {
                Some(limit) => self@.total + pending > limit && self@.config.maxmemory_policy
                    != MaxMemoryPolicy::NoEviction,
                None => false,
            },
    {
        match self.config.maxmemory {
            Some(limit) => {
                let over = match self.total_memory.checked_add(pending) {
                    Some(projected) => projected > limit,
                    None => true,
                };
                over && !matches!(self.config.maxmemory_policy, MaxMemoryPolicy::NoEviction)
            },
            None => false,
        }
    }

    /// Whether a write that adds `pending` bytes must be refused: a
    /// budget is set, the write would exceed it, and the policy never
    /// evicts.
    pub fn should_reject_write(&self, pending: usize) -> (reject: bool)
        ensures
            reject == match self@.config.maxmemory {
                Some(limit) => self@.total + pending > limit && self@.config.maxmemory_policy
                    == MaxMemoryPolicy::NoEviction,
                None => false,
            },
    {
        match self.config.maxmemory {
            Some(limit) => {
                let over = match self.total_memory.checked_add(pending) {
                    Some(projected) => projected > limit,
                    None => true,
                };
                over && matches!(self.config.maxmemory_policy, MaxMemoryPolicy::NoEviction)
            },
            None => false,
        }
    }

    /// Takes note of a read of `key`.
    pub fn record_read(&mut self, key: &[u8])
        requires
            old(self).wf(),
        ensures
            final(self).wf(),
            final(self)@.config == old(self)@.config,
            final(self)@.total == old(self)@.total,
            final(self)@.records == touched(
                old(self)@.records,
                old(self)@.config.maxmemory_policy,
                key@,
            ),
    {
        self.update_access(key);
    }

    fn update_access(&mut self, key: &[u8])
        requires
            old(self).wf(),
        ensures
            final(self).wf(),
            final(self)@.config == old(self)@.config,
            final(self)@.total == old(self)@.total,
            final(self)@.records == touched(
                old(self)@.records,
                old(self)@.config.maxmemory_policy,
                key@,
            ),
    {
        let ghost before = self@.records;
        let policy = self.config.maxmemory_policy;
        match self.position(key) {
            Some(i) => {
                proof {
                    lemma_record_index_unique(before, i as int);
                    lemma_total_size_bounds(before, i as int);
                }
                if policy.is_lru() {
                    let record = self.records.remove(i);
                    assert(self@.records =~= before.remove(i as int));
                    proof {
                        lemma_total_size_push(before.remove(i as int), record@);
                    }
                    self.records.push(record);
                    assert(self@.records =~= before.remove(i as int).push(before[i as int]));
                } else if policy.is_lfu() {
                    let count = self.records[i].count;
                    let ghost next = bumped(before[i as int]);
                    proof {
                        lemma_total_size_update(before, i as int, next);
                    }
                    self.records[i].count = count.saturating_add(1);
                    assert(self@.records =~= before.update(i as int, next));
                }
            },
            None => {},
        }
    }

    /// Positions of the records that may be evicted, least recent first.
    fn candidate_positions(&self, volatile_only: bool) -> (at: Vec<usize>)
        ensures
            at@.len() == candidates(self@.records, volatile_only).len(),
            forall|j: int|
                0 <= j < at@.len() ==> (#[trigger] at@[j]) < self@.records.len()
                    && self@.records[at@[j] as int] == candidates(self@.records, volatile_only)[j],
    {
        let ghost records = self@.records;
        let ghost keep = may_evict(volatile_only);
        let mut at: Vec<usize> = Vec::new();
        let mut i: usize = 0;
        assert(records.take(0).filter(keep) =~= Seq::<AccessRecordView>::empty()) by {
            reveal(Seq::filter);
        }
        while i < self.records.len()
            invariant
                i <= self.records.len(),
                records == self@.records,
                keep == may_evict(volatile_only),
                at@.len() == records.take(i as int).filter(keep).len(),
                forall|j: int|
                    0 <= j < at@.len() ==> (#[trigger] at@[j]) < records.len()
                        && records[at@[j] as int] == records.take(i as int).filter(keep)[j],
            decreases self.records.len() - i,
        {
            proof {
                lemma_filter_push(records.take(i as int), keep, records[i as int]);
                assert(records.take(i as int + 1) =~= records.take(i as int).push(
                    records[i as int],
                ));
            }
            if !volatile_only || self.records[i].expire_at.is_some() {
                at.push(i);
            }
            i += 1;
        }
        assert(records.take(i as int) =~= records);
        at
    }

    /// The sum charged to the keys that may be evicted under the
    /// current policy, clamped to the machine word.
    pub fn reclaimable(&self) -> (size: usize)
        requires
            self.wf(),
        ensures
            size == reclaimable_size(self@.records, self@.config.maxmemory_policy.is_volatile()),
    {
        let volatile_only = self.config.maxmemory_policy.is_volatile();
        let ghost records = self@.records;
        let ghost keep = may_evict(volatile_only);
        let mut size: usize = 0;
        let mut i: usize = 0;
        assert(records.take(0).filter(keep) =~= Seq::<AccessRecordView>::empty()) by {
            reveal(Seq::filter);
        }
        while i < self.records.len()
            invariant
                i <= self.records.len(),
                records == self@.records,
                self.wf(),
                keep == may_evict(volatile_only),
                size == total_size(records.take(i as int).filter(keep)),
                size <= total_size(records.take(i as int)),
            decreases self.records.len() - i,
        {
            proof {
                lemma_filter_push(records.take(i as int), keep, records[i as int]);
                assert(records.take(i as int + 1) =~= records.take(i as int).push(
                    records[i as int],
                ));
                lemma_total_size_push(records.take(i as int), records[i as int]);
                lemma_total_size_push(records.take(i as int).filter(keep), records[i as int]);
                lemma_total_size_prefix(records, i as int + 1);
            }
            if !volatile_only || self.records[i].expire_at.is_some() {
                size = size + self.records[i].size;
            }
            i += 1;
        }
        assert(records.take(i as int) =~= records);
        size
    }

    /// The sum charged to the keys other than `key` that may be evicted
    /// under the current policy.
    pub fn reclaimable_except(&self, key: &[u8]) -> (size: usize)
        requires
            self.wf(),
        ensures
            size == reclaimable_size(
                without_record(self@.records, key@),
                self@.config.maxmemory_policy.is_volatile(),
            ),
            size <= self@.total - charged(self@.records, key@),
    {
        let volatile_only = self.config.maxmemory_policy.is_volatile();
        let all = self.reclaimable();
        proof {
            lemma_reclaimable_bounds(without_record(self@.records, key@), volatile_only);
        }
        match self.position(key) {
            Some(i) => {
                proof {
                    lemma_record_index_unique(self@.records, i as int);
                    lemma_reclaimable_remove(self@.records, i as int, volatile_only);
                    lemma_total_size_bounds(self@.records, i as int);
                }
                if !volatile_only || self.records[i].expire_at.is_some() {
                    all - self.records[i].size
                } else {
                    all
                }
            },
            None => all,
        }
    }

    /// Picks the key to evict next under the current policy, if any key
    /// may be evicted. `entropy` decides under the random policies and is
    /// ignored by the others. Nothing is removed.
    pub fn evict_one(&self, entropy: u64) -> (key: Option<Vec<u8>>)
        ensures
            match key {
                Some(k) => victim(self@.config.maxmemory_policy, self@.records, entropy) == Some(
                    k@,
                ),
                None => victim(self@.config.maxmemory_policy, self@.records, entropy) is None,
            },
    {
        let policy = self.config.maxmemory_policy;
        match policy {
            MaxMemoryPolicy::NoEviction => None,
            MaxMemoryPolicy::AllKeysRandom | MaxMemoryPolicy::VolatileRandom => self.evict_random(
                policy.is_volatile(),
                entropy,
            ),
            MaxMemoryPolicy::AllKeysLru | MaxMemoryPolicy::VolatileLru => self.evict_lru(
                policy.is_volatile(),
            ),
            MaxMemoryPolicy::AllKeysLfu | MaxMemoryPolicy::VolatileLfu => self.evict_lfu(
                policy.is_volatile(),
            ),
            MaxMemoryPolicy::VolatileTtl => self.evict_ttl(),
        }
    }

    /// The candidate that `entropy` points at.
    pub fn evict_random(&self, volatile_only: bool, entropy: u64) -> (key: Option<Vec<u8>>)
        ensures
            match key {
                Some(k) => {
                    let pool = candidates(self@.records, volatile_only);
                    pool.len() > 0 && k@ == pool[entropy as int % pool.len() as int].key
                },
                None => candidates(self@.records, volatile_only).len() == 0,
            },
    {
        let pool = self.candidate_positions(volatile_only);
        if pool.len() == 0 {
            return None;
        }
        let pick = (entropy % (pool.len() as u64)) as usize;
        Some(copy_bytes(self.records[pool[pick]].key.as_slice()))
    }

    /// The least recently accessed candidate.
    pub fn evict_lru(&self, volatile_only: bool) -> (key: Option<Vec<u8>>)
        ensures
            match key {
                Some(k) => {
                    let pool = candidates(self@.records, volatile_only);
                    pool.len() > 0 && k@ == pool[0].key
                },
                None => candidates(self@.records, volatile_only).len() == 0,
            },
    {
        let ghost records = self@.records;
        let ghost keep = may_evict(volatile_only);
        let mut i: usize = 0;
        assert(records.take(0).filter(keep) =~= Seq::<AccessRecordView>::empty()) by {
            reveal(Seq::filter);
        }
        while i < self.records.len()
            invariant
                i <= self.records.len(),
                records == self@.records,
                keep == may_evict(volatile_only),
                records.take(i as int).filter(keep).len() == 0,
            decreases self.records.len() - i,
        {
            proof {
                lemma_filter_push(records.take(i as int), keep, records[i as int]);
                assert(records.take(i as int + 1) =~= records.take(i as int).push(
                    records[i as int],
                ));
            }
            if !volatile_only || self.records[i].expire_at.is_some() {
                proof {
                    lemma_filter_prefix(records, keep, i as int + 1);
                    assert(records.take(i as int + 1).filter(keep)[0] == records[i as int]);
                }
                return Some(copy_bytes(self.records[i].key.as_slice()));
            }
            i += 1;
        }
        assert(records.take(i as int) =~= records);
        None
    }

    /// The candidate with the lowest access counter.
    pub fn evict_lfu(&self, volatile_only: bool) -> (key: Option<Vec<u8>>)
        ensures
            match key {
                Some(k) => {
                    let pool = candidates(self@.records, volatile_only);
                    pool.len() > 0 && k@ == pool[lowest(pool, true, pool.len() as int)].key
                },
                None => candidates(self@.records, volatile_only).len() == 0,
            },
    {
        self.evict_lowest(volatile_only, true)
    }

    /// The key with the earliest deadline.
    pub fn evict_ttl(&self) -> (key: Option<Vec<u8>>)
        ensures
            match key {
                Some(k) => {
                    let pool = candidates(self@.records, true);
                    pool.len() > 0 && k@ == pool[lowest(pool, false, pool.len() as int)].key
                },
                None => candidates(self@.records, true).len() == 0,
            },
    {
        self.evict_lowest(true, false)
    }

    /// The first candidate of lowest rank.
    fn evict_lowest(&self, volatile_only: bool, by_count: bool) -> (key: Option<Vec<u8>>)
        ensures
            match key {
                Some(k) => {
                    let pool = candidates(self@.records, volatile_only);
                    pool.len() > 0 && k@ == pool[lowest(pool, by_count, pool.len() as int)].key
                },
                None => candidates(self@.records, volatile_only).len() == 0,
            },
    {
        let pool = self.candidate_positions(volatile_only);
        if pool.len() == 0 {
            return None;
        }
        let ghost items = candidates(self@.records, volatile_only);
        let mut best: usize = 0;
        let mut n: usize = 1;
        while n < pool.len()
            invariant
                1 <= n <= pool.len(),
                best < n,
                pool@.len() == items.len(),
                forall|j: int|
                    0 <= j < pool@.len() ==> (#[trigger] pool@[j]) < self@.records.len()
                        && self@.records[pool@[j] as int] == items[j],
                best == lowest(items, by_count, n as int),
            decreases pool.len() - n,
        {
            let here = &self.records[pool[n]];
            let held = &self.records[pool[best]];
            assert(here@ == items[n as int]);
            assert(held@ == items[best as int]);
            let lower = if by_count {
                here.count < held.count
            } else {
                match (here.expire_at, held.expire_at) {
                    (Some(a), Some(b)) => a < b,
                    (Some(_), None) => true,
                    _ => false,
                }
            };
            if lower {
                best = n;
            }
            n += 1;
        }
        Some(copy_bytes(self.records[pool[best]].key.as_slice()))
    }
}

/// The sizes charged to a prefix sum to no more than the whole.
pub proof fn lemma_total_size_prefix(records: Seq<AccessRecordView>, n: int)
    requires
        0 <= n <= records.len(),
    ensures
        0 <= total_size(records.take(n)) <= total_size(records),
    decreases records.len() - n,
{
    lemma_total_size_nonnegative(records.take(n));
    if n == records.len() {
        assert(records.take(n) =~= records);
    } else {
        lemma_total_size_prefix(records, n + 1);
        assert(records.take(n + 1) =~= records.take(n).push(records[n]));
        lemma_total_size_push(records.take(n), records[n]);
    }
}

impl Default for MemoryTracker {
    fn default() -> (made: MemoryTracker)
        ensures
            made.wf(),
            made@.config == StorageConfig::default_view(),
            made@.total == 0,
            made@.records == Seq::<AccessRecordView>::empty(),
    {
        MemoryTracker::new()
    }
}

} // verus!
