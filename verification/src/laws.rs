//! What holds of the store whatever is done to it.

use vstd::prelude::*;
use crate::keys::del_outcome;
use crate::memory::{candidates, entry_cost, lemma_reclaimable_bounds, lemma_reclaimable_remove,
    lemma_record_index_unique, lemma_victim, reclaimable_size, record_index, victim};
use crate::model::{EngineView, lemma_drop_key, lemma_put, next_entropy};
use crate::ops::{Change, ErrorKind, Outcome, lemma_purge_settles};
use crate::range::slice_of;
use crate::sets::{flag, sadd_outcome, set_of};
use crate::sorted_set::{distinct_members, entry_lt, members_of, ranked};
use crate::strings::{get_reply, set_outcome};
use crate::types::{RedisDataView, StoredValueView};
use crate::value::{ValueView, strings_of};
use crate::zsets::zrange_reply;

verus! {

/// Evicting keeps the state consistent and never touches a key that has
/// no record. It ends either with room for the pending bytes or with no
/// key left that may be evicted; under a volatile policy, what could
/// still be reclaimed when it started is enough to tell which.
pub proof fn lemma_evict_until_fits(s: EngineView, pending: usize, limit: usize, key: Seq<u8>)
    requires
        s.wf(),
        !s.entries.contains_key(key),
    ensures
        ({
            let t = s.evict_until_fits(pending, limit);
            let policy = s.memory.config.maxmemory_policy;
            &&& t.wf()
            &&& !t.entries.contains_key(key)
            &&& t.memory.config == s.memory.config
            &&& t.now == s.now
            &&& t.memory.total <= s.memory.total
            &&& t.memory.total + pending <= limit || victim(
                policy,
                t.memory.records,
                t.entropy,
            ) is None
            &&& t.memory.total - reclaimable_size(t.memory.records, true) == s.memory.total
                - reclaimable_size(s.memory.records, true) || !policy.is_volatile()
            &&& forall|k: Seq<u8>| #[trigger]
                t.entries.contains_key(k) ==> s.entries.contains_key(k) && t.entries[k]
                    == s.entries[k]
        }),
    decreases s.memory.records.len(),
{
    let policy = s.memory.config.maxmemory_policy;
    if s.memory.total + pending > limit {
        lemma_victim(policy, s.memory.records, s.entropy);
        match victim(policy, s.memory.records, s.entropy) {
            Some(gone) => {
                lemma_drop_key(s, gone);
                let at = record_index(s.memory.records, gone);
                assert(s.entries.contains_key(s.memory.records[at].key));
                lemma_record_index_unique(s.memory.records, at);
                lemma_reclaimable_remove(s.memory.records, at, true);
                let next = EngineView { entropy: next_entropy(s.entropy), ..s.drop_key(gone) };
                assert(next.wf());
                lemma_evict_until_fits(next, pending, limit, key);
            },
            None => {},
        }
    }
}

/// A write keeps the state consistent. If it is refused nothing changes.
/// If it is accepted the key holds the entry written, and the accounted
/// total exceeds the budget by no more than the cost of the entry
/// written: it is within the budget, unless the entry alone exceeds it
/// and every other key has been evicted. Under `noeviction` and the
/// volatile policies the total is within the budget without exception.
pub proof fn lemma_write_respects_budget(s: EngineView, key: Seq<u8>, entry: StoredValueView)
    requires
        s.wf(),
        entry.data.wf(),
    ensures
        s.write(key, entry).wf(),
        s.write(key, entry).now == s.now,
        s.write(key, entry).memory.config == s.memory.config,
        s.refuses(key, entry) ==> s.write(key, entry) == s,
        !s.refuses(key, entry) ==> s.write(key, entry).entries.contains_key(key) && s.write(
            key,
            entry,
        ).entries[key] == entry,
        !s.refuses(key, entry) ==> match s.memory.config.maxmemory {
            Some(limit) => s.write(key, entry).used() <= limit || (s.write(key, entry).used()
                == entry_cost(key.len() as int, entry)
                && !s.memory.config.maxmemory_policy.is_volatile() && !(
            s.memory.config.maxmemory_policy is NoEviction)),
            None => true,
        },
        !s.refuses(key, entry) ==> match s.memory.config.maxmemory {
            Some(limit) => s.write(key, entry).used() <= limit + entry_cost(
                key.len() as int,
                entry,
            ),
            None => true,
        },
{
    reveal(EngineView::write);
    reveal(EngineView::refuses);
    let cost = entry_cost(key.len() as int, entry);
    let base = s.drop_key(key);
    let policy = s.memory.config.maxmemory_policy;
    lemma_drop_key(s, key);
    if !s.refuses(key, entry) {
        match s.memory.config.maxmemory {
            None => {
                lemma_put(base, key, entry);
            },
            Some(limit) => {
                lemma_evict_until_fits(base, cost, limit, key);
                let room = base.evict_until_fits(cost, limit);
                lemma_victim(policy, room.memory.records, room.entropy);
                lemma_reclaimable_bounds(room.memory.records, true);
                lemma_reclaimable_bounds(base.memory.records, true);
                if room.memory.total + cost > limit {
                    if policy.is_volatile() {
                        assert(candidates(room.memory.records, true).len() == 0);
                        assert(reclaimable_size(room.memory.records, true) == 0);
                    } else {
                        assert(room.memory.records.len() == 0);
                    }
                }
                lemma_put(room, key, entry);
            },
        }
    }
}

/// Under `noeviction` an accepted write leaves the accounted total
/// within the budget.
pub proof fn lemma_noeviction_stays_within_budget(
    s: EngineView,
    key: Seq<u8>,
    entry: StoredValueView,
    limit: usize,
)
    requires
        s.wf(),
        entry.data.wf(),
        s.memory.config.maxmemory == Some(limit),
        s.memory.config.maxmemory_policy is NoEviction,
        !s.refuses(key, entry),
    ensures
        s.write(key, entry).used() <= limit,
{
    lemma_write_respects_budget(s, key, entry);
}

/// With a budget of zero, `noeviction` refuses every write.
pub proof fn lemma_zero_budget_refuses(s: EngineView, key: Seq<u8>, entry: StoredValueView)
    requires
        s.wf(),
        s.memory.config.maxmemory == Some(0usize),
        s.memory.config.maxmemory_policy is NoEviction,
    ensures
        s.refuses(key, entry),
{
    reveal(EngineView::refuses);
    lemma_drop_key(s, key);
}

/// An operation that fails leaves the state as it was, whether it fails
/// on its own account (the key holds a value of another kind, an
/// argument is malformed) or because memory has no room for what it
/// would store. The one thing that may go is an entry under the key
/// whose deadline has been reached.
pub proof fn lemma_failure_changes_nothing(s: EngineView, key: Seq<u8>, outcome: Outcome)
    requires
        s.wf(),
        s.reply_to(key, outcome) is Err,
        outcome.reply is Err ==> outcome.change is Keep,
    ensures
        s.after(key, outcome) == s.purge(key),
        !s.is_expired(key) ==> s.after(key, outcome) == s,
{
    lemma_purge_settles(s, key);
    match outcome.change {
        Change::Store(entry) => {
            reveal(EngineView::write);
        },
        _ => {},
    }
}

/// Once the clock has reached a key's deadline the key reads as absent,
/// and `GET` answers nothing; after a sweep at that time the key is
/// gone from the keyspace altogether.
pub proof fn lemma_deadline_ends_entry(s: EngineView, key: Seq<u8>, deadline: u64)
    requires
        s.wf(),
        s.entries.contains_key(key),
        s.entries[key].expire_at == Some(deadline),
        s.now >= deadline,
    ensures
        s.live(key) is None,
        get_reply(s.live(key)) == Ok::<ValueView, ErrorKind>(ValueView::Null),
        !s.queried(key).entries.contains_key(key),
        !s.swept().entries.contains_key(key),
        s.swept().wf(),
{
    lemma_drop_key(s, key);
    lemma_swept(s);
    if s.swept().entries.contains_key(key) {
        assert(!s.swept().is_expired(key));
    }
}

/// A sweep keeps the state consistent, leaves no entry whose deadline
/// has been reached, and touches no other entry.
pub proof fn lemma_swept(s: EngineView)
    requires
        s.wf(),
    ensures
        s.swept().wf(),
        s.swept().now == s.now,
        forall|k: Seq<u8>| #[trigger]
            s.swept().entries.contains_key(k) ==> !s.swept().is_expired(k) && s.entries.contains_key(
                k,
            ) && s.swept().entries[k] == s.entries[k],
        forall|k: Seq<u8>| #[trigger]
            s.entries.contains_key(k) && !s.is_expired(k) ==> s.swept().entries.contains_key(k),
    decreases s.schedule.len(),
{
    if s.schedule.len() > 0 && s.schedule[0].0 <= s.now {
        let key = s.schedule[0].1;
        lemma_drop_key(s, key);
        assert(s.entries.contains_key(s.schedule[0].1));
        crate::expire::lemma_without_key(s.schedule, key);
        assert(s.schedule.contains(s.schedule[0]));
        crate::seqs::lemma_filter_len_strict(s.schedule, crate::expire::of_other_key(key), 0);
        lemma_swept(s.drop_key(key));
        assert(s.is_expired(key));
    } else {
        let t = s.swept();
        assert forall|k: Seq<u8>| #[trigger] t.entries.contains_key(k) implies !t.is_expired(
            k,
        ) by {
            if t.entries[k].expire_at is Some {
                let e = (t.entries[k].expire_at->0, k);
                assert(t.schedule.contains(e));
                let i = choose|i: int| 0 <= i < t.schedule.len() && t.schedule[i] == e;
                if i > 0 {
                    assert(t.schedule[0].0 <= t.schedule[i].0);
                }
            }
        }
    }
}

/// The keys of a consistent state are as many as the accountant has
/// records: one each.
pub proof fn lemma_key_count(s: EngineView)
    requires
        s.wf(),
    ensures
        s.entries.dom().finite(),
        s.entries.dom().len() == s.memory.records.len(),
{
    let records = s.memory.records;
    let names = records.map_values(|r: crate::memory::AccessRecordView| r.key);
    assert(names.no_duplicates()) by {
        assert forall|i: int, j: int|
            0 <= i < names.len() && 0 <= j < names.len() && i != j implies names[i]
            != names[j] by {
            assert(records[i].key != records[j].key);
        }
    }
    assert(names.to_set() =~= s.entries.dom()) by {
        assert forall|k: Seq<u8>| names.to_set().contains(k) <==> s.entries.dom().contains(
            k,
        ) by {
            if names.contains(k) {
                let i = choose|i: int| 0 <= i < names.len() && names[i] == k;
                assert(s.entries.contains_key(records[i].key));
            }
            if s.entries.contains_key(k) {
                let i = record_index(records, k);
                assert(names[i] == k);
            }
        }
    }
    names.unique_seq_to_set();
}

/// A sweep removes as many keys as it reports.
pub proof fn lemma_swept_count(s: EngineView)
    requires
        s.wf(),
    ensures
        s.swept().entries.dom().len() + s.swept_count() == s.entries.dom().len(),
    decreases s.schedule.len(),
{
    lemma_key_count(s);
    lemma_swept(s);
    lemma_key_count(s.swept());
    if s.schedule.len() > 0 && s.schedule[0].0 <= s.now {
        let key = s.schedule[0].1;
        lemma_drop_key(s, key);
        assert(s.entries.contains_key(s.schedule[0].1));
        crate::seqs::lemma_filter_len_strict(s.schedule, crate::expire::of_other_key(key), 0);
        lemma_key_count(s.drop_key(key));
        lemma_swept_count(s.drop_key(key));
    }
}

/// What `GET` answers is held by the key: nothing is made up. And what
/// an accepted `SET` wrote is what a `GET` that follows it answers.
pub proof fn lemma_get_answers_what_was_set(s: EngineView, key: Seq<u8>, value: Seq<u8>)
    requires
        s.wf(),
    ensures
        forall|bytes: Seq<u8>|
            get_reply(s.live(key)) == Ok::<ValueView, ErrorKind>(ValueView::String(bytes))
                ==> s.entries.contains_key(key) && s.entries[key].data == RedisDataView::String(
                bytes,
            ),
        s.reply_to(key, set_outcome(value)) is Ok ==> get_reply(
            s.after(key, set_outcome(value)).live(key),
        ) == Ok::<ValueView, ErrorKind>(ValueView::String(value)),
{
    lemma_purge_settles(s, key);
    let seen = s.purge(key);
    let entry = set_outcome(value).change->Store_0;
    lemma_write_respects_budget(seen, key, entry);
}

/// Adding a member to a set any number of times leaves it in the set
/// exactly once: after one accepted `SADD` the member occurs once among
/// the members, and a second `SADD` answers zero and changes nothing.
pub proof fn lemma_sadd_once(s: EngineView, key: Seq<u8>, member: Seq<u8>)
    requires
        s.wf(),
        set_of(s.live(key)) is Some,
        s.reply_to(key, sadd_outcome(s.live(key), member)) is Ok,
    ensures
        ({
            let t = s.after(key, sadd_outcome(s.live(key), member));
            &&& t.wf()
            &&& set_of(t.live(key)) is Some
            &&& set_of(t.live(key))->0.contains(member)
            &&& set_of(t.live(key))->0.no_duplicates()
            &&& set_of(t.live(key))->0.filter(|m: Seq<u8>| m == member).len() == 1
            &&& t.reply_to(key, sadd_outcome(t.live(key), member)) == Ok::<ValueView, ErrorKind>(
                flag(false),
            )
            &&& t.after(key, sadd_outcome(t.live(key), member)) == t
        }),
{
    lemma_purge_settles(s, key);
    let seen = s.purge(key);
    let members = set_of(s.live(key))->0;
    if s.live(key) is Some {
        assert(seen.entries[key].data.wf());
    }
    let outcome = sadd_outcome(s.live(key), member);
    let t = s.after(key, outcome);
    if members.contains(member) {
        assert(t == seen);
    } else {
        let entry = outcome.change->Store_0;
        assert(members.push(member).no_duplicates()) by {
            let grown = members.push(member);
            assert forall|i: int, j: int|
                0 <= i < grown.len() && 0 <= j < grown.len() && i != j implies grown[i]
                != grown[j] by {
                if i < members.len() {
                    assert(members.contains(members[i]));
                }
                if j < members.len() {
                    assert(members.contains(members[j]));
                }
            }
        }
        lemma_write_respects_budget(seen, key, entry);
        assert(members.push(member)[members.len() as int] == member);
    }
    lemma_purge_settles(t, key);
    assert(t.now == s.now);
    assert(t.entries.contains_key(key));
    assert(t.entries[key].expire_at == crate::strings::deadline_of(s.live(key)));
    assert(t.live(key) is Some);
    let now_members = set_of(t.live(key))->0;
    assert(now_members.contains(member));
    assert(now_members.no_duplicates());
    lemma_occurs_once(now_members, member);
}

/// A value that a duplicate-free sequence contains occurs in it once.
pub proof fn lemma_occurs_once(items: Seq<Seq<u8>>, x: Seq<u8>)
    requires
        items.no_duplicates(),
        items.contains(x),
    ensures
        items.filter(|m: Seq<u8>| m == x).len() == 1,
    decreases items.len(),
{
    let same = |m: Seq<u8>| m == x;
    let front = items.drop_last();
    let last = items.last();
    assert(items =~= front.push(last));
    crate::seqs::lemma_filter_push(front, same, last);
    assert forall|i: int, j: int|
        0 <= i < front.len() && 0 <= j < front.len() && i != j implies front[i] != front[j] by {
        assert(front[i] == items[i]);
        assert(front[j] == items[j]);
    }
    if last == x {
        assert forall|i: int| 0 <= i < front.len() implies !same(#[trigger] front[i]) by {
            assert(front[i] == items[i]);
            assert(items[items.len() - 1] == x);
        }
        lemma_none_kept(front, same);
    } else {
        let at = choose|i: int| 0 <= i < items.len() && items[i] == x;
        assert(front[at] == x);
        lemma_occurs_once(front, x);
    }
}

/// A filter whose test no item passes keeps nothing.
pub proof fn lemma_none_kept<T>(items: Seq<T>, keep: spec_fn(T) -> bool)
    requires
        forall|i: int| 0 <= i < items.len() ==> !keep(#[trigger] items[i]),
    ensures
        items.filter(keep).len() == 0,
    decreases items.len(),
{
    if items.len() == 0 {
        assert(items.filter(keep) =~= items) by {
            reveal(Seq::filter);
        }
    } else {
        let front = items.drop_last();
        assert forall|i: int| 0 <= i < front.len() implies !keep(#[trigger] front[i]) by {
            assert(front[i] == items[i]);
        }
        lemma_none_kept(front, keep);
        crate::seqs::lemma_filter_push(front, keep, items.last());
        assert(items =~= front.push(items.last()));
    }
}

/// `ZRANGE key 0 -1` answers every member, by ascending score and, among
/// equal scores, by ascending member bytes.
pub proof fn lemma_zrange_in_rank_order(items: Seq<(i64, Seq<u8>)>)
    requires
        ranked(items),
    ensures
        slice_of(members_of(items), 0, -1) == members_of(items),
        forall|i: int, j: int|
            0 <= i < j < items.len() ==> (#[trigger] items[i]).0 < (#[trigger] items[j]).0 || (
            items[i].0 == items[j].0 && crate::bytes::lex_lt(items[i].1, items[j].1)),
        forall|i: int, j: int|
            0 <= i <= j < items.len() ==> (#[trigger] items[i]).0 <= (#[trigger] items[j]).0,
{
    let members = members_of(items);
    assert(slice_of(members, 0, -1) =~= members);
    assert forall|i: int, j: int| 0 <= i < j < items.len() implies (#[trigger] items[i]).0 < (
    #[trigger] items[j]).0 || (items[i].0 == items[j].0 && crate::bytes::lex_lt(
        items[i].1,
        items[j].1,
    )) by {
        assert(entry_lt(items[i], items[j]));
    }
    assert forall|i: int, j: int| 0 <= i <= j < items.len() implies (#[trigger] items[i]).0 <= (
    #[trigger] items[j]).0 by {
        if i < j {
            assert(entry_lt(items[i], items[j]));
        }
    }
}

/// The sorted set that a consistent state holds under a key is in rank
/// order, so that `ZRANGE key 0 -1` answers its members in that order.
pub proof fn lemma_stored_zset_is_ranked(s: EngineView, key: Seq<u8>)
    requires
        s.wf(),
        s.live(key) matches Some(entry) && entry.data is ZSet,
    ensures
        ranked(s.live(key)->0.data->ZSet_0),
        distinct_members(s.live(key)->0.data->ZSet_0),
        zrange_reply(s.live(key), 0, -1) == Ok::<ValueView, ErrorKind>(
            ValueView::Array(strings_of(members_of(s.live(key)->0.data->ZSet_0))),
        ),
{
    assert(s.entries[key].data.wf());
    lemma_zrange_in_rank_order(s.live(key)->0.data->ZSet_0);
}

/// Clearing a deadline twice is the same as clearing it once.
pub proof fn lemma_persist_twice(s: EngineView, key: Seq<u8>)
    requires
        s.wf(),
    ensures
        s.with_expiry(key, None).wf(),
        s.with_expiry(key, None).with_expiry(key, None) == s.with_expiry(key, None),
        s.with_expiry(key, None).live(key) is Some == s.live(key) is Some,
{
    lemma_purge_settles(s, key);
    let purged = s.purge(key);
    lemma_drop_key(purged, key);
    if purged.entries.contains_key(key) && purged.entries[key].expire_at is Some {
        let entry = crate::model::entry_of(purged.entries[key].data, None);
        let base = purged.drop_key(key);
        assert(purged.entries[key].data.wf());
        assert(entry_cost(key.len() as int, entry) == entry_cost(
            key.len() as int,
            purged.entries[key],
        ));
        lemma_put(base, key, entry);
        let t = base.put(key, entry);
        assert(t.entries[key] == entry);
        assert(!t.is_expired(key));
    }
}

/// Deleting a key twice is the same as deleting it once, and the second
/// deletion answers zero.
pub proof fn lemma_del_twice(s: EngineView, key: Seq<u8>)
    requires
        s.wf(),
    ensures
        ({
            let t = s.after(key, del_outcome(s.live(key)));
            &&& t.wf()
            &&& t.live(key) is None
            &&& t.after(key, del_outcome(t.live(key))) == t
            &&& t.reply_to(key, del_outcome(t.live(key))) == Ok::<ValueView, ErrorKind>(
                flag(false),
            )
        }),
{
    lemma_purge_settles(s, key);
    lemma_drop_key(s.purge(key), key);
    let t = s.after(key, del_outcome(s.live(key)));
    lemma_purge_settles(t, key);
}

} // verus!
