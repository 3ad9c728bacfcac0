//! The expiration schedule: which keys fall due at which deadline.

use vstd::prelude::*;
use crate::bytes::{bytes_eq, copy_bytes};
use crate::seqs::{lemma_filter_members, lemma_filter_push};

verus! {

/// Number of leading items whose deadline is at or before `now`. In a
/// schedule ordered by deadline these are all the items that are due.
pub open spec fn due_count(items: Seq<(u64, Seq<u8>)>, now: u64) -> int
    decreases items.len(),
{
    if items.len() == 0 || items[0].0 > now {
        0
    } else {
        1 + due_count(items.drop_first(), now)
    }
}

/// Deadlines never decrease along the schedule.
pub open spec fn by_deadline(items: Seq<(u64, Seq<u8>)>) -> bool {
    forall|i: int, j: int|
        0 <= i < j < items.len() ==> (#[trigger] items[i]).0 <= (#[trigger] items[j]).0
}

/// The keys that fall due exactly at `deadline`.
pub open spec fn bucket(items: Seq<(u64, Seq<u8>)>, deadline: u64) -> Set<Seq<u8>> {
    Set::new(|key: Seq<u8>| items.contains((deadline, key)))
}

/// The keys of `items`, in order.
pub open spec fn keys_of(items: Seq<(u64, Seq<u8>)>) -> Seq<Seq<u8>> {
    items.map_values(|e: (u64, Seq<u8>)| e.1)
}

/// The schedule after `key` has been put down for `deadline`.
pub open spec fn with_deadline(items: Seq<(u64, Seq<u8>)>, key: Seq<u8>, deadline: u64) -> Seq<
    (u64, Seq<u8>),
> {
    if items.contains((deadline, key)) {
        items
    } else {
        items.insert(due_count(items, deadline), (deadline, key))
    }
}

/// The test that a scheduled pair belongs to a key other than `key`.
pub open spec fn of_other_key(key: Seq<u8>) -> spec_fn((u64, Seq<u8>)) -> bool {
    |e: (u64, Seq<u8>)| e.1 != key
}

/// The schedule after every mention of `key` has been struck.
pub open spec fn without_key(items: Seq<(u64, Seq<u8>)>, key: Seq<u8>) -> Seq<(u64, Seq<u8>)> {
    items.filter(of_other_key(key))
}

/// The due items form a prefix of the schedule; in an ordered schedule
/// nothing after them is due.
pub proof fn lemma_due_count(items: Seq<(u64, Seq<u8>)>, now: u64)
    ensures
        0 <= due_count(items, now) <= items.len(),
        forall|i: int| 0 <= i < due_count(items, now) ==> (#[trigger] items[i]).0 <= now,
        due_count(items, now) < items.len() ==> items[due_count(items, now)].0 > now,
        by_deadline(items) ==> forall|i: int|
            due_count(items, now) <= i < items.len() ==> (#[trigger] items[i]).0 > now,
    decreases items.len(),
{
    if items.len() != 0 && items[0].0 <= now {
        let rest = items.drop_first();
        lemma_due_count(rest, now);
        let n = due_count(items, now);
        assert forall|i: int| 0 <= i < n implies (#[trigger] items[i]).0 <= now by {
            if i > 0 {
                assert(items[i] == rest[i - 1]);
            }
        }
        if n < items.len() {
            assert(items[n] == rest[n - 1]);
        }
        if by_deadline(items) {
            assert forall|i: int, j: int| 0 <= i < j < rest.len() implies (#[trigger] rest[i]).0
                <= (#[trigger] rest[j]).0 by {
                assert(rest[i] == items[i + 1]);
                assert(rest[j] == items[j + 1]);
            }
            assert forall|i: int| n <= i < items.len() implies (#[trigger] items[i]).0 > now by {
                assert(items[i] == rest[i - 1]);
            }
        }
    } else if by_deadline(items) {
        assert forall|i: int| 0 <= i < items.len() implies (#[trigger] items[i]).0 > now by {
            if i > 0 {
                assert(items[0].0 <= items[i].0);
            }
        }
    }
}

/// Striking a key keeps the schedule in order and free of repeats, and
/// leaves exactly the pairs of other keys.
pub proof fn lemma_without_key(items: Seq<(u64, Seq<u8>)>, key: Seq<u8>)
    requires
        by_deadline(items),
        items.no_duplicates(),
    ensures
        by_deadline(without_key(items, key)),
        without_key(items, key).no_duplicates(),
        without_key(items, key).len() <= items.len(),
        forall|e: (u64, Seq<u8>)| #[trigger]
            without_key(items, key).contains(e) <==> items.contains(e) && e.1 != key,
    decreases items.len(),
{
    let keep = of_other_key(key);
    lemma_filter_members(items, keep);
    if items.len() == 0 {
        assert(items.filter(keep) =~= Seq::<(u64, Seq<u8>)>::empty()) by {
            reveal(Seq::filter);
        }
    } else {
        let front = items.drop_last();
        let last = items.last();
        assert(items =~= front.push(last));
        assert forall|i: int, j: int| 0 <= i < j < front.len() implies (#[trigger] front[i]).0 <= (
        #[trigger] front[j]).0 by {
            assert(front[i] == items[i]);
            assert(front[j] == items[j]);
        }
        assert forall|i: int, j: int|
            0 <= i < front.len() && 0 <= j < front.len() && i != j implies front[i]
            != front[j] by {
            assert(front[i] == items[i]);
            assert(front[j] == items[j]);
        }
        lemma_without_key(front, key);
        lemma_filter_members(front, keep);
        lemma_filter_push(front, keep, last);
        let kept = front.filter(keep);
        let out = items.filter(keep);
        assert(kept == without_key(front, key));
        assert(out == without_key(items, key));
        assert(by_deadline(kept));
        assert(kept.no_duplicates());
        assert(out == if keep(last) {
            kept.push(last)
        } else {
            kept
        });
        if keep(last) {
            assert forall|i: int| 0 <= i < kept.len() implies (#[trigger] kept[i]).0 <= last.0
                && kept[i] != last by {
                assert(kept.contains(kept[i]));
                assert(front.contains(kept[i]));
                let k = choose|k: int| 0 <= k < front.len() && front[k] == kept[i];
                assert(items[k] == kept[i]);
                assert(items[items.len() - 1] == last);
            }
            assert forall|i: int, j: int| 0 <= i < j < out.len() implies (#[trigger] out[i]).0 <= (
            #[trigger] out[j]).0 by {
                assert(out[i] == kept[i]);
                if j < kept.len() {
                    assert(out[j] == kept[j]);
                    assert(kept[i].0 <= kept[j].0);
                } else {
                    assert(out[j] == last);
                    assert(kept[i].0 <= last.0);
                }
            }
            assert forall|i: int, j: int|
                0 <= i < out.len() && 0 <= j < out.len() && i != j implies out[i] != out[j] by {
                if i < kept.len() {
                    assert(out[i] == kept[i]);
                    assert(kept[i] != last);
                } else {
                    assert(out[i] == last);
                }
                if j < kept.len() {
                    assert(out[j] == kept[j]);
                    assert(kept[j] != last);
                } else {
                    assert(out[j] == last);
                }
                if i < kept.len() && j < kept.len() {
                    assert(kept[i] != kept[j]);
                }
            }
        }
    }
}

/// Putting a key down keeps the schedule in order and free of repeats,
/// and adds exactly the one pair.
pub proof fn lemma_with_deadline(items: Seq<(u64, Seq<u8>)>, key: Seq<u8>, deadline: u64)
    requires
        by_deadline(items),
        items.no_duplicates(),
    ensures
        by_deadline(with_deadline(items, key, deadline)),
        with_deadline(items, key, deadline).no_duplicates(),
        forall|e: (u64, Seq<u8>)| #[trigger]
            with_deadline(items, key, deadline).contains(e) <==> items.contains(e) || e == (
                deadline,
                key,
            ),
{
    let out = with_deadline(items, key, deadline);
    let entry = (deadline, key);
    if !items.contains(entry) {
        let at = due_count(items, deadline);
        lemma_due_count(items, deadline);
        assert forall|i: int, j: int| 0 <= i < j < out.len() implies (#[trigger] out[i]).0 <= (
        #[trigger] out[j]).0 by {
            let bi = if i < at { i } else { i - 1 };
            let bj = if j < at { j } else { j - 1 };
            if i != at {
                assert(out[i] == items[bi]);
            }
            if j != at {
                assert(out[j] == items[bj]);
            }
        }
        assert forall|i: int, j: int|
            0 <= i < out.len() && 0 <= j < out.len() && i != j implies out[i] != out[j] by {
            let bi = if i < at { i } else { i - 1 };
            let bj = if j < at { j } else { j - 1 };
            if i != at {
                assert(out[i] == items[bi]);
                assert(items.contains(items[bi]));
            }
            if j != at {
                assert(out[j] == items[bj]);
                assert(items.contains(items[bj]));
            }
        }
        assert forall|e: (u64, Seq<u8>)| #[trigger] out.contains(e) <==> items.contains(e) || e
            == entry by {
            if out.contains(e) {
                let i = choose|i: int| 0 <= i < out.len() && out[i] == e;
                let bi = if i < at { i } else { i - 1 };
                if i != at {
                    assert(out[i] == items[bi]);
                }
            }
            if items.contains(e) {
                let j = choose|j: int| 0 <= j < items.len() && items[j] == e;
                let oj = if j < at { j } else { j + 1 };
                assert(out[oj] == e);
            }
            if e == entry {
                assert(out[at] == e);
            }
        }
    }
}

/// A time-ordered record of which keys expire when.
#[derive(Debug)]
pub struct ExpirationManager {
    schedule: Vec<(u64, Vec<u8>)>,
    sweep_interval_ms: u64,
}

impl Clone for ExpirationManager {
    fn clone(&self) -> (copy: ExpirationManager)
        ensures
            copy@ == self@,
            copy.interval() == self.interval(),
    {
        let mut schedule: Vec<(u64, Vec<u8>)> = Vec::new();
        let mut i: usize = 0;
        while i < self.schedule.len()
            invariant
                i <= self.schedule.len(),
                schedule@.len() == i,
                forall|j: int|
                    0 <= j < i ==> ((#[trigger] schedule@[j]).0, schedule@[j].1@) == self@[j],
            decreases self.schedule.len() - i,
        {
            schedule.push((self.schedule[i].0, copy_bytes(self.schedule[i].1.as_slice())));
            i += 1;
        }
        let copy = ExpirationManager { schedule, sweep_interval_ms: self.sweep_interval_ms };
        assert(copy@ =~= self@);
        copy
    }
}

impl View for ExpirationManager {
    type V = Seq<(u64, Seq<u8>)>;

    /// The scheduled (deadline, key) pairs, earliest deadline first.
    closed spec fn view(&self) -> Seq<(u64, Seq<u8>)> {
        self.schedule@.map_values(|e: (u64, Vec<u8>)| (e.0, e.1@))
    }
}

impl ExpirationManager {
    /// The schedule is ordered by deadline and lists no pair twice.
    pub open spec fn wf(&self) -> bool {
        by_deadline(self@) && self@.no_duplicates()
    }

    /// Milliseconds between two sweeps.
    pub closed spec fn interval(&self) -> u64 {
        self.sweep_interval_ms
    }

    /// An empty schedule to be swept every `sweep_interval_ms` milliseconds.
    pub fn new(sweep_interval_ms: u64) -> (made: ExpirationManager)
        ensures
            made@ == Seq::<(u64, Seq<u8>)>::empty(),
            made.interval() == sweep_interval_ms,
            made.wf(),
    {
        let made = ExpirationManager { schedule: Vec::new(), sweep_interval_ms };
        assert(made@ =~= Seq::<(u64, Seq<u8>)>::empty());
        made
    }

    /// Milliseconds between two sweeps.
    pub fn sweep_interval(&self) -> (ms: u64)
        ensures
            ms == self.interval(),
    {
        self.sweep_interval_ms
    }

    /// Number of scheduled pairs.
    pub fn len(&self) -> (n: usize)
        ensures
            n == self@.len(),
    {
        self.schedule.len()
    }

    /// Whether `key` is put down for `expire_at`.
    pub fn is_scheduled(&self, key: &[u8], expire_at: u64) -> (found: bool)
        ensures
            found == self@.contains((expire_at, key@)),
    {
        let mut i: usize = 0;
        while i < self.schedule.len()
            invariant
                i <= self.schedule.len(),
                forall|j: int| 0 <= j < i ==> self@[j] != (expire_at, key@),
            decreases self.schedule.len() - i,
        {
            if self.schedule[i].0 == expire_at && bytes_eq(self.schedule[i].1.as_slice(), key) {
                assert(self@[i as int] == (expire_at, key@));
                return true;
            }
            i += 1;
        }
        false
    }

    /// Puts `key` down for the deadline `expire_at`.
    pub fn schedule_expiration(&mut self, key: Vec<u8>, expire_at: u64)
        requires
            old(self).wf(),
        ensures
            final(self).wf(),
            final(self).interval() == old(self).interval(),
            final(self)@ == with_deadline(old(self)@, key@, expire_at),
    {
        if self.is_scheduled(key.as_slice(), expire_at) {
            return ;
        }
        let ghost before = self@;
        let mut at: usize = 0;
        assert(before.skip(0) =~= before);
        while at < self.schedule.len() && self.schedule[at].0 <= expire_at
            invariant
                at <= self.schedule.len(),
                self@ == before,
                due_count(before, expire_at) == at + due_count(before.skip(at as int), expire_at),
            decreases self.schedule.len() - at,
        {
            assert(before.skip(at as int)[0] == before[at as int]);
            assert(before.skip(at as int).drop_first() =~= before.skip(at as int + 1));
            at += 1;
        }
        proof {
            if at < before.len() {
                assert(before.skip(at as int)[0] == before[at as int]);
            }
            lemma_due_count(before, expire_at);
        }
        proof {
            lemma_with_deadline(before, key@, expire_at);
        }
        self.schedule.insert(at, (expire_at, key));
        assert(self@ =~= before.insert(at as int, (expire_at, key@)));
    }

    /// Strikes `key` from the schedule, whatever deadlines it was put
    /// down for.
    pub fn cancel_expiration(&mut self, key: &[u8])
        requires
            old(self).wf(),
        ensures
            final(self).wf(),
            final(self).interval() == old(self).interval(),
            final(self)@ == without_key(old(self)@, key@),
    {
        let ghost before = self@;
        let ghost keep = of_other_key(key@);
        let ghost mut seen: int = 0;
        let mut i: usize = 0;
        proof {
            assert(before.take(0).filter(keep) =~= Seq::<(u64, Seq<u8>)>::empty()) by {
                reveal(Seq::filter);
            }
            assert(before.skip(0) =~= before);
        }
        while i < self.schedule.len()
            invariant
                0 <= seen <= before.len(),
                i <= self.schedule.len(),
                keep == of_other_key(key@),
                i == before.take(seen).filter(keep).len(),
                self@ == before.take(seen).filter(keep) + before.skip(seen),
                self.wf(),
                self.interval() == old(self).interval(),
            decreases before.len() - seen,
        {
            let ghost current = self@;
            proof {
                assert(current[i as int] == before.skip(seen)[0]);
                lemma_filter_push(before.take(seen), keep, before[seen]);
                assert(before.take(seen + 1) =~= before.take(seen).push(before[seen]));
            }
            if bytes_eq(self.schedule[i].1.as_slice(), key) {
                self.schedule.remove(i);
                assert(self@ =~= current.remove(i as int));
                assert(self@ =~= before.take(seen + 1).filter(keep) + before.skip(seen + 1));
            } else {
                i += 1;
                assert(self@ =~= before.take(seen + 1).filter(keep) + before.skip(seen + 1));
            }
            proof {
                seen = seen + 1;
            }
        }
        proof {
            assert(before.skip(seen).len() == 0);
            assert(seen == before.len());
            assert(before.take(seen) =~= before);
            assert(self@ =~= before.filter(keep));
        }
    }

    /// The key at the head of the schedule, if its deadline is at or
    /// before `now`.
    pub fn first_due(&self, now: u64) -> (due: Option<Vec<u8>>)
        ensures
            match due {
                Some(key) => self@.len() > 0 && self@[0].0 <= now && key@ == self@[0].1,
                None => self@.len() == 0 || self@[0].0 > now,
            },
    {
        if self.schedule.len() > 0 && self.schedule[0].0 <= now {
            Some(copy_bytes(self.schedule[0].1.as_slice()))
        } else {
            None
        }
    }

    /// Takes every pair whose deadline is at or before `now` off the
    /// schedule and returns their keys, earliest deadline first.
    pub fn sweep(&mut self, now: u64) -> (due: Vec<Vec<u8>>)
        requires
            old(self).wf(),
        ensures
            final(self).wf(),
            final(self).interval() == old(self).interval(),
            list_keys(due@) == keys_of(old(self)@.take(due_count(old(self)@, now))),
            final(self)@ == old(self)@.skip(due_count(old(self)@, now)),
            forall|i: int| 0 <= i < final(self)@.len() ==> (#[trigger] final(self)@[i]).0 > now,
    {
        let ghost before = self@;
        let mut n: usize = 0;
        assert(before.skip(0) =~= before);
        while n < self.schedule.len() && self.schedule[n].0 <= now
            invariant
                n <= self.schedule.len(),
                self@ == before,
                due_count(before, now) == n + due_count(before.skip(n as int), now),
            decreases self.schedule.len() - n,
        {
            assert(before.skip(n as int)[0] == before[n as int]);
            assert(before.skip(n as int).drop_first() =~= before.skip(n as int + 1));
            n += 1;
        }
        proof {
            if n < before.len() {
                assert(before.skip(n as int)[0] == before[n as int]);
            }
            lemma_due_count(before, now);
        }
        let mut due: Vec<Vec<u8>> = Vec::new();
        let mut i: usize = 0;
        while i < n
            invariant
                i <= n <= self.schedule.len(),
                self@ == before,
                due@.len() == i,
                forall|j: int| 0 <= j < i ==> (#[trigger] due@[j])@ == before[j].1,
            decreases n - i,
        {
            due.push(copy_bytes(self.schedule[i].1.as_slice()));
            i += 1;
        }
        let rest = self.schedule.split_off(n);
        self.schedule = rest;
        assert(self@ =~= before.skip(n as int));
        assert(list_keys(due@) =~= keys_of(before.take(n as int)));
        proof {
            let after = self@;
            assert forall|i: int, j: int| 0 <= i < j < after.len() implies (#[trigger] after[i]).0
                <= (#[trigger] after[j]).0 by {
                assert(after[i] == before[i + n]);
                assert(after[j] == before[j + n]);
            }
            assert forall|i: int, j: int|
                0 <= i < after.len() && 0 <= j < after.len() && i != j implies after[i]
                != after[j] by {
                assert(after[i] == before[i + n]);
                assert(after[j] == before[j + n]);
            }
            assert forall|i: int| 0 <= i < after.len() implies (#[trigger] after[i]).0 > now by {
                assert(after[i] == before[i + n]);
            }
        }
        due
    }

    /// Empties the schedule.
    pub fn clear_all(&mut self)
        ensures
            final(self)@ == Seq::<(u64, Seq<u8>)>::empty(),
            final(self).interval() == old(self).interval(),
            final(self).wf(),
    {
        self.schedule.clear();
        assert(self@ =~= Seq::<(u64, Seq<u8>)>::empty());
    }
}

/// The keys of a result list as byte sequences.
pub open spec fn list_keys(keys: Seq<Vec<u8>>) -> Seq<Seq<u8>> {
    keys.map_values(|k: Vec<u8>| k@)
}

} // verus!
