//! The values a key can hold, and the entry that pairs a value with its
//! expiration deadline.

use vstd::prelude::*;
use std::collections::VecDeque;
use crate::byte_set::ByteSet;
use crate::bytes::copy_bytes;
use crate::field_map::{FieldMap, distinct_fields};
use crate::sorted_set::{SortedSet, distinct_members, ranked};

verus! {

/// Bookkeeping cost charged for each list element.
pub const LIST_SLOT_BYTES: usize = 24;

/// Bookkeeping cost charged for each set member.
pub const SET_SLOT_BYTES: usize = 24;

/// Bookkeeping cost charged for each hash field.
pub const HASH_SLOT_BYTES: usize = 48;

/// Bookkeeping cost charged for each sorted-set member, score included.
pub const ZSET_SLOT_BYTES: usize = 32;

/// Fixed cost charged once for a sorted set.
pub const ZSET_BASE_BYTES: usize = 8;

/// The largest count that fits the machine word, or `n` itself if it fits.
pub open spec fn clamp(n: int) -> usize {
    if n > usize::MAX {
        usize::MAX
    } else {
        n as usize
    }
}

/// Payload of `items` plus `slot` bytes for each of them.
pub open spec fn items_cost(items: Seq<Seq<u8>>, slot: nat) -> nat
    decreases items.len(),
{
    if items.len() == 0 {
        0
    } else {
        items_cost(items.drop_last(), slot) + items.last().len() + slot
    }
}

/// Payload of field names and values plus the per-field cost.
pub open spec fn pairs_cost(pairs: Seq<(Seq<u8>, Seq<u8>)>) -> nat
    decreases pairs.len(),
{
    if pairs.len() == 0 {
        0
    } else {
        pairs_cost(pairs.drop_last()) + pairs.last().0.len() + pairs.last().1.len()
            + HASH_SLOT_BYTES as nat
    }
}

/// Payload of the members plus the per-member cost.
pub open spec fn scored_cost(items: Seq<(i64, Seq<u8>)>) -> nat
    decreases items.len(),
{
    if items.len() == 0 {
        0
    } else {
        scored_cost(items.drop_last()) + items.last().1.len() + ZSET_SLOT_BYTES as nat
    }
}

/// What a list or a set is charged for grows by the element's length
/// and the slot cost when an element is added at the end.
pub proof fn lemma_items_cost_push(items: Seq<Seq<u8>>, slot: nat, x: Seq<u8>)
    ensures
        items_cost(items.push(x), slot) == items_cost(items, slot) + x.len() + slot,
{
    assert(items.push(x).drop_last() =~= items);
}

/// What a list or a set is charged for shrinks by the element's length
/// and the slot cost when an element is taken out, wherever it stood.
pub proof fn lemma_items_cost_remove(items: Seq<Seq<u8>>, slot: nat, i: int)
    requires
        0 <= i < items.len(),
    ensures
        items_cost(items.remove(i), slot) + items[i].len() + slot == items_cost(items, slot),
    decreases items.len(),
{
    if i == items.len() - 1 {
        assert(items.remove(i) =~= items.drop_last());
    } else {
        lemma_items_cost_remove(items.drop_last(), slot, i);
        assert(items.remove(i) =~= items.drop_last().remove(i).push(items.last()));
        lemma_items_cost_push(items.drop_last().remove(i), slot, items.last());
    }
}

/// What a list is charged for grows by the element's length and the slot
/// cost when an element is added at the front.
pub proof fn lemma_items_cost_push_front(items: Seq<Seq<u8>>, slot: nat, x: Seq<u8>)
    ensures
        items_cost(seq![x] + items, slot) == items_cost(items, slot) + x.len() + slot,
    decreases items.len(),
{
    let whole = seq![x] + items;
    if items.len() == 0 {
        assert(whole.drop_last() =~= Seq::<Seq<u8>>::empty());
        assert(whole.last() == x);
        assert(items_cost(whole.drop_last(), slot) == 0);
    } else {
        lemma_items_cost_push_front(items.drop_last(), slot, x);
        assert(whole.drop_last() =~= seq![x] + items.drop_last());
        assert(whole.last() == items.last());
    }
}

/// What a hash is charged for grows by the lengths of field and value
/// and the slot cost when a field is added.
pub proof fn lemma_pairs_cost_push(pairs: Seq<(Seq<u8>, Seq<u8>)>, pair: (Seq<u8>, Seq<u8>))
    ensures
        pairs_cost(pairs.push(pair)) == pairs_cost(pairs) + pair.0.len() + pair.1.len()
            + HASH_SLOT_BYTES,
{
    assert(pairs.push(pair).drop_last() =~= pairs);
}

/// What a hash is charged for shrinks by the lengths of field and value
/// and the slot cost when a field is taken out.
pub proof fn lemma_pairs_cost_remove(pairs: Seq<(Seq<u8>, Seq<u8>)>, i: int)
    requires
        0 <= i < pairs.len(),
    ensures
        pairs_cost(pairs.remove(i)) + pairs[i].0.len() + pairs[i].1.len() + HASH_SLOT_BYTES
            == pairs_cost(pairs),
    decreases pairs.len(),
{
    if i == pairs.len() - 1 {
        assert(pairs.remove(i) =~= pairs.drop_last());
    } else {
        lemma_pairs_cost_remove(pairs.drop_last(), i);
        assert(pairs.remove(i) =~= pairs.drop_last().remove(i).push(pairs.last()));
        lemma_pairs_cost_push(pairs.drop_last().remove(i), pairs.last());
    }
}

/// What a sorted set is charged for shrinks by the member's length and
/// the slot cost when a member is taken out.
pub proof fn lemma_scored_cost_remove(items: Seq<(i64, Seq<u8>)>, i: int)
    requires
        0 <= i < items.len(),
    ensures
        scored_cost(items.remove(i)) + items[i].1.len() + ZSET_SLOT_BYTES == scored_cost(items),
    decreases items.len(),
{
    if i == items.len() - 1 {
        assert(items.remove(i) =~= items.drop_last());
    } else {
        lemma_scored_cost_remove(items.drop_last(), i);
        assert(items.remove(i) =~= items.drop_last().remove(i).push(items.last()));
        assert(items.drop_last().remove(i).push(items.last()).drop_last()
            =~= items.drop_last().remove(i));
    }
}

/// What a sorted set is charged for grows by the member's length and the
/// slot cost when a member is put in, wherever it comes to stand.
pub proof fn lemma_scored_cost_insert(items: Seq<(i64, Seq<u8>)>, at: int, item: (i64, Seq<u8>))
    requires
        0 <= at <= items.len(),
    ensures
        scored_cost(items.insert(at, item)) == scored_cost(items) + item.1.len()
            + ZSET_SLOT_BYTES,
{
    let grown = items.insert(at, item);
    lemma_scored_cost_remove(grown, at);
    assert(grown.remove(at) =~= items);
}

/// The estimate never decreases when the uncapped charge grows.
pub proof fn lemma_clamp_monotone(a: int, b: int)
    requires
        0 <= a <= b,
    ensures
        clamp(a) <= clamp(b),
{
}

/// The five shapes of value, as plain mathematical data.
pub enum RedisDataView {
    String(Seq<u8>),
    List(Seq<Seq<u8>>),
    SetOf(Seq<Seq<u8>>),
    Hash(Seq<(Seq<u8>, Seq<u8>)>),
    ZSet(Seq<(i64, Seq<u8>)>),
}

impl RedisDataView {
    /// Set members and hash fields are distinct; sorted sets are in rank
    /// order with distinct members.
    pub open spec fn wf(self) -> bool {
        match self {
            RedisDataView::String(_) => true,
            RedisDataView::List(_) => true,
            RedisDataView::SetOf(members) => members.no_duplicates(),
            RedisDataView::Hash(pairs) => distinct_fields(pairs),
            RedisDataView::ZSet(items) => ranked(items) && distinct_members(items),
        }
    }

    /// Bytes charged for the value before clamping to the machine word.
    pub open spec fn raw_size(self) -> nat {
        match self {
            RedisDataView::String(bytes) => bytes.len(),
            RedisDataView::List(items) => items_cost(items, LIST_SLOT_BYTES as nat),
            RedisDataView::SetOf(members) => items_cost(members, SET_SLOT_BYTES as nat),
            RedisDataView::Hash(pairs) => pairs_cost(pairs),
            RedisDataView::ZSet(items) => scored_cost(items) + ZSET_BASE_BYTES as nat,
        }
    }

    /// Bytes charged for the value.
    pub open spec fn estimated_size(self) -> usize {
        clamp(self.raw_size() as int)
    }
}

/// The kinds of value, for type queries.
#[derive(Debug, Clone, Copy, PartialEq, Eq, Structural)]
pub enum Kind {
    String,
    List,
    SetOf,
    Hash,
    ZSet,
}

/// A typed value.
#[derive(Debug)]
pub enum RedisData {
    String(Vec<u8>),
    List(VecDeque<Vec<u8>>),
    SetOf(ByteSet),
    Hash(FieldMap),
    ZSet(SortedSet),
}

impl Clone for RedisData {
    fn clone(&self) -> (copy: RedisData)
        ensures
            copy@ == self@,
    {
        match self {
            RedisData::String(bytes) => RedisData::String(copy_bytes(bytes.as_slice())),
            RedisData::List(items) => {
                let mut copy: VecDeque<Vec<u8>> = VecDeque::new();
                let mut i: usize = 0;
                while i < items.len()
                    invariant
                        i <= items.len(),
                        list_view(copy@) == list_view(items@).take(i as int),
                    decreases items.len() - i,
                {
                    let ghost so_far = list_view(copy@);
                    copy.push_back(copy_bytes(items[i].as_slice()));
                    assert(list_view(copy@) =~= so_far.push(items@[i as int]@));
                    i += 1;
                    assert(list_view(copy@) =~= list_view(items@).take(i as int));
                }
                assert(list_view(items@).take(i as int) =~= list_view(items@));
                RedisData::List(copy)
            },
            RedisData::SetOf(set) => RedisData::SetOf(set.clone()),
            RedisData::Hash(map) => RedisData::Hash(map.clone()),
            RedisData::ZSet(set) => RedisData::ZSet(set.clone()),
        }
    }
}

/// The elements of a list as byte sequences.
pub open spec fn list_view(items: Seq<Vec<u8>>) -> Seq<Seq<u8>> {
    items.map_values(|b: Vec<u8>| b@)
}

impl View for RedisData {
    type V = RedisDataView;

    open spec fn view(&self) -> RedisDataView {
        match self {
            RedisData::String(bytes) => RedisDataView::String(bytes@),
            RedisData::List(items) => RedisDataView::List(list_view(items@)),
            RedisData::SetOf(set) => RedisDataView::SetOf(set@),
            RedisData::Hash(map) => RedisDataView::Hash(map@),
            RedisData::ZSet(set) => RedisDataView::ZSet(set@),
        }
    }
}

impl RedisDataView {
    /// Which of the five shapes the value has.
    pub open spec fn kind(self) -> Kind {
        match self {
            RedisDataView::String(_) => Kind::String,
            RedisDataView::List(_) => Kind::List,
            RedisDataView::SetOf(_) => Kind::SetOf,
            RedisDataView::Hash(_) => Kind::Hash,
            RedisDataView::ZSet(_) => Kind::ZSet,
        }
    }
}

/// Adds `len + slot` to a clamped running total.
fn charge(total: usize, len: usize, slot: usize, Ghost(exact): Ghost<int>) -> (next: usize)
    requires
        0 <= exact,
        total == clamp(exact),
    ensures
        next == clamp(exact + len + slot),
{
    total.saturating_add(len).saturating_add(slot)
}

impl RedisData {
    /// Which of the five shapes this value has.
    pub fn kind(&self) -> (k: Kind)
        ensures
            k == self@.kind(),
    {
        match self {
            RedisData::String(_) => Kind::String,
            RedisData::List(_) => Kind::List,
            RedisData::SetOf(_) => Kind::SetOf,
            RedisData::Hash(_) => Kind::Hash,
            RedisData::ZSet(_) => Kind::ZSet,
        }
    }

    /// Bytes charged to the memory budget for this value: its payload
    /// plus a fixed cost per element, clamped to the machine word.
    pub fn estimated_size(&self) -> (size: usize)
        ensures
            size == self@.estimated_size(),
    {
        match self {
            RedisData::String(bytes) => bytes.len(),
            RedisData::List(items) => {
                let ghost all = list_view(items@);
                let mut total: usize = 0;
                let mut i: usize = 0;
                while i < items.len()
                    invariant
                        i <= items.len(),
                        all == list_view(items@),
                        total == clamp(items_cost(all.take(i as int), LIST_SLOT_BYTES as nat) as int),
                    decreases items.len() - i,
                {
                    assert(all.take(i as int + 1).drop_last() =~= all.take(i as int));
                    total = charge(
                        total,
                        items[i].len(),
                        LIST_SLOT_BYTES,
                        Ghost(items_cost(all.take(i as int), LIST_SLOT_BYTES as nat) as int),
                    );
                    i += 1;
                }
                assert(all.take(i as int) =~= all);
                total
            },
            RedisData::SetOf(set) => {
                let members = set.members();
                let ghost all = set@;
                let mut total: usize = 0;
                let mut i: usize = 0;
                while i < members.len()
                    invariant
                        i <= members.len(),
                        members@.len() == all.len(),
                        forall|j: int| 0 <= j < members@.len() ==> (#[trigger] members@[j])@ == all[j],
                        total == clamp(items_cost(all.take(i as int), SET_SLOT_BYTES as nat) as int),
                    decreases members.len() - i,
                {
                    assert(all.take(i as int + 1).drop_last() =~= all.take(i as int));
                    total = charge(
                        total,
                        members[i].len(),
                        SET_SLOT_BYTES,
                        Ghost(items_cost(all.take(i as int), SET_SLOT_BYTES as nat) as int),
                    );
                    i += 1;
                }
                assert(all.take(i as int) =~= all);
                total
            },
            RedisData::Hash(map) => {
                let pairs = map.pairs();
                let ghost all = map@;
                let mut total: usize = 0;
                let mut i: usize = 0;
                while i < pairs.len()
                    invariant
                        i <= pairs.len(),
                        pairs@.len() == all.len(),
                        forall|j: int|
                            0 <= j < pairs@.len() ==> ((#[trigger] pairs@[j]).0@, pairs@[j].1@)
                                == all[j],
                        total == clamp(pairs_cost(all.take(i as int)) as int),
                    decreases pairs.len() - i,
                {
                    assert(all.take(i as int + 1).drop_last() =~= all.take(i as int));
                    assert((pairs@[i as int].0@, pairs@[i as int].1@) == all[i as int]);
                    let ghost so_far = pairs_cost(all.take(i as int)) as int;
                    total = charge(total, pairs[i].0.len(), 0, Ghost(so_far));
                    total = charge(
                        total,
                        pairs[i].1.len(),
                        HASH_SLOT_BYTES,
                        Ghost(so_far + pairs[i as int].0.len()),
                    );
                    i += 1;
                }
                assert(all.take(i as int) =~= all);
                total
            },
            RedisData::ZSet(set) => {
                let entries = set.entries();
                let ghost all = set@;
                let mut total: usize = 0;
                let mut i: usize = 0;
                while i < entries.len()
                    invariant
                        i <= entries.len(),
                        entries@.len() == all.len(),
                        forall|j: int|
                            0 <= j < entries@.len() ==> ((#[trigger] entries@[j]).0, entries@[j].1@)
                                == all[j],
                        total == clamp(scored_cost(all.take(i as int)) as int),
                    decreases entries.len() - i,
                {
                    assert(all.take(i as int + 1).drop_last() =~= all.take(i as int));
                    assert((entries@[i as int].0, entries@[i as int].1@) == all[i as int]);
                    total = charge(
                        total,
                        entries[i].1.len(),
                        ZSET_SLOT_BYTES,
                        Ghost(scored_cost(all.take(i as int)) as int),
                    );
                    i += 1;
                }
                assert(all.take(i as int) =~= all);
                charge(total, 0, ZSET_BASE_BYTES, Ghost(scored_cost(all) as int))
            },
        }
    }
}

/// An entry as plain mathematical data.
pub struct StoredValueView {
    pub data: RedisDataView,
    pub expire_at: Option<u64>,
}

impl StoredValueView {
    /// Whether the entry's deadline has been reached at time `now`.
    pub open spec fn is_expired(self, now: u64) -> bool {
        match self.expire_at {
            Some(at) => now >= at,
            None => false,
        }
    }
}

/// A value together with the monotonic time, in milliseconds, at which it
/// ceases to exist; `None` means it never expires.
#[derive(Debug)]
pub struct StoredValue {
    pub data: RedisData,
    pub expire_at: Option<u64>,
}

impl View for StoredValue {
    type V = StoredValueView;

    open spec fn view(&self) -> StoredValueView {
        StoredValueView { data: self.data@, expire_at: self.expire_at }
    }
}

impl Clone for StoredValue {
    fn clone(&self) -> (copy: StoredValue)
        ensures
            copy@ == self@,
    {
        StoredValue { data: self.data.clone(), expire_at: self.expire_at }
    }
}

impl StoredValue {
    /// True iff a deadline is set and `now` is at or past it.
    pub fn is_expired(&self, now: u64) -> (expired: bool)
        ensures
            expired == self@.is_expired(now),
    {
        match self.expire_at {
            Some(at) => now >= at,
            None => false,
        }
    }

    /// Bytes charged to the memory budget for the value held.
    pub fn estimated_size(&self) -> (size: usize)
        ensures
            size == self@.data.estimated_size(),
    {
        self.data.estimated_size()
    }
}

} // verus!
