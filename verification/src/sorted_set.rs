//! The sorted-set value: members ranked by score, ties broken by the
//! byte order of the member.
//!
//! A score is a signed 64-bit key. Callers whose scores are not integers
//! map them to keys with an order-preserving encoding before they reach
//! this module.

use vstd::prelude::*;
use crate::bytes::{bytes_eq, bytes_lt, copy_bytes, lex_lt, lemma_lex_lt_total,
    lemma_lex_lt_transitive};
use crate::range::{resolve_span, slice_of};
use crate::seqs::lemma_filter_push;

verus! {

/// One end of a score interval.
#[derive(Debug, Clone, Copy, PartialEq, Eq, Structural)]
pub enum ScoreBound {
    /// Below every score.
    NegInf,
    /// Above every score.
    PosInf,
    /// The score itself belongs to the interval.
    Incl(i64),
    /// The score itself is left out.
    Excl(i64),
}

impl ScoreBound {
    /// Where the bound lies on the number line.
    pub open spec fn level(self) -> int {
        match self {
            ScoreBound::NegInf => i64::MIN - 1,
            ScoreBound::PosInf => i64::MAX + 1,
            ScoreBound::Incl(v) => v as int,
            ScoreBound::Excl(v) => v as int,
        }
    }

    /// Whether `score` is admitted by this bound used as a lower end.
    pub open spec fn admits_from_below(self, score: i64) -> bool {
        match self {
            ScoreBound::NegInf => true,
            ScoreBound::PosInf => false,
            ScoreBound::Incl(v) => score >= v,
            ScoreBound::Excl(v) => score > v,
        }
    }

    /// Whether `score` is admitted by this bound used as an upper end.
    pub open spec fn admits_from_above(self, score: i64) -> bool {
        match self {
            ScoreBound::NegInf => false,
            ScoreBound::PosInf => true,
            ScoreBound::Incl(v) => score <= v,
            ScoreBound::Excl(v) => score < v,
        }
    }

    /// Whether this bound lies above `other` on the number line.
    pub fn is_above(&self, other: &ScoreBound) -> (above: bool)
        ensures
            above == (self.level() > other.level()),
    {
        match (*self, *other) {
            (ScoreBound::NegInf, _) => false,
            (ScoreBound::PosInf, ScoreBound::PosInf) => false,
            (ScoreBound::PosInf, _) => true,
            (_, ScoreBound::NegInf) => true,
            (_, ScoreBound::PosInf) => false,
            (ScoreBound::Incl(a), ScoreBound::Incl(b)) => a > b,
            (ScoreBound::Incl(a), ScoreBound::Excl(b)) => a > b,
            (ScoreBound::Excl(a), ScoreBound::Incl(b)) => a > b,
            (ScoreBound::Excl(a), ScoreBound::Excl(b)) => a > b,
        }
    }

    fn lower_admits(&self, score: i64) -> (ok: bool)
        ensures
            ok == self.admits_from_below(score),
    {
        match *self {
            ScoreBound::NegInf => true,
            ScoreBound::PosInf => false,
            ScoreBound::Incl(v) => score >= v,
            ScoreBound::Excl(v) => score > v,
        }
    }

    fn upper_admits(&self, score: i64) -> (ok: bool)
        ensures
            ok == self.admits_from_above(score),
    {
        match *self {
            ScoreBound::NegInf => false,
            ScoreBound::PosInf => true,
            ScoreBound::Incl(v) => score <= v,
            ScoreBound::Excl(v) => score < v,
        }
    }
}

/// Whether `score` lies between `min` and `max`.
pub open spec fn in_score_range(score: i64, min: ScoreBound, max: ScoreBound) -> bool {
    min.admits_from_below(score) && max.admits_from_above(score)
}

/// The rank order: by score, then by member bytes.
pub open spec fn entry_lt(a: (i64, Seq<u8>), b: (i64, Seq<u8>)) -> bool {
    a.0 < b.0 || (a.0 == b.0 && lex_lt(a.1, b.1))
}

/// Each item ranks strictly below every later one.
pub open spec fn ranked(items: Seq<(i64, Seq<u8>)>) -> bool {
    forall|i: int, j: int|
        0 <= i < j < items.len() ==> entry_lt(#[trigger] items[i], #[trigger] items[j])
}

/// No member is listed twice.
pub open spec fn distinct_members(items: Seq<(i64, Seq<u8>)>) -> bool {
    forall|i: int, j: int|
        0 <= i < items.len() && 0 <= j < items.len() && i != j ==> (#[trigger] items[i]).1 != (
        #[trigger] items[j]).1
}

/// Whether `member` is listed.
pub open spec fn has_member(items: Seq<(i64, Seq<u8>)>, member: Seq<u8>) -> bool {
    exists|i: int| 0 <= i < items.len() && (#[trigger] items[i]).1 == member
}

/// Position of `member`; meaningful when it is present.
pub open spec fn member_index(items: Seq<(i64, Seq<u8>)>, member: Seq<u8>) -> int {
    choose|i: int| 0 <= i < items.len() && (#[trigger] items[i]).1 == member
}

/// The score of `member`, if it is present.
pub open spec fn member_score(items: Seq<(i64, Seq<u8>)>, member: Seq<u8>) -> Option<i64> {
    if has_member(items, member) {
        Some(items[member_index(items, member)].0)
    } else {
        None
    }
}

/// The items after `member` has left.
pub open spec fn without_member(items: Seq<(i64, Seq<u8>)>, member: Seq<u8>) -> Seq<
    (i64, Seq<u8>),
> {
    if has_member(items, member) {
        items.remove(member_index(items, member))
    } else {
        items
    }
}

/// Number of leading items that rank below `entry`: the place where
/// `entry` belongs.
pub open spec fn insert_rank(items: Seq<(i64, Seq<u8>)>, entry: (i64, Seq<u8>)) -> int
    decreases items.len(),
{
    if items.len() == 0 || !entry_lt(items[0], entry) {
        0
    } else {
        1 + insert_rank(items.drop_first(), entry)
    }
}

/// The items after `member` has been given `score`.
pub open spec fn with_score(items: Seq<(i64, Seq<u8>)>, member: Seq<u8>, score: i64) -> Seq<
    (i64, Seq<u8>),
> {
    let rest = without_member(items, member);
    rest.insert(insert_rank(rest, (score, member)), (score, member))
}

/// The members of `items`, in order.
pub open spec fn members_of(items: Seq<(i64, Seq<u8>)>) -> Seq<Seq<u8>> {
    items.map_values(|e: (i64, Seq<u8>)| e.1)
}

/// The test that an item's score lies between `min` and `max`.
pub open spec fn score_within(min: ScoreBound, max: ScoreBound) -> spec_fn((i64, Seq<u8>)) -> bool {
    |e: (i64, Seq<u8>)| in_score_range(e.0, min, max)
}

/// The items whose score lies between `min` and `max`, in rank order.
pub open spec fn scored_between(
    items: Seq<(i64, Seq<u8>)>,
    min: ScoreBound,
    max: ScoreBound,
) -> Seq<
    (i64, Seq<u8>),
> {
    items.filter(score_within(min, max))
}

/// The rank order is transitive.
pub proof fn lemma_entry_lt_transitive(a: (i64, Seq<u8>), b: (i64, Seq<u8>), c: (i64, Seq<u8>))
    requires
        entry_lt(a, b),
        entry_lt(b, c),
    ensures
        entry_lt(a, c),
{
    if a.0 == b.0 && b.0 == c.0 {
        lemma_lex_lt_transitive(a.1, b.1, c.1);
    }
}

/// Any two distinct items rank one way or the other.
pub proof fn lemma_entry_lt_total(a: (i64, Seq<u8>), b: (i64, Seq<u8>))
    ensures
        entry_lt(a, b) || entry_lt(b, a) || a == b,
{
    lemma_lex_lt_total(a.1, b.1);
}

/// In a sequence with distinct members, a member is found at one
/// position only.
pub proof fn lemma_member_index_unique(items: Seq<(i64, Seq<u8>)>, i: int)
    requires
        distinct_members(items),
        0 <= i < items.len(),
    ensures
        has_member(items, items[i].1),
        member_index(items, items[i].1) == i,
{
    let member = items[i].1;
    assert(0 <= i < items.len() && items[i].1 == member);
    let j = member_index(items, member);
    assert(0 <= j < items.len() && items[j].1 == member);
}

/// The place where an entry belongs lies within the sequence, with only
/// lower-ranked items before it and none at it.
pub proof fn lemma_insert_rank(items: Seq<(i64, Seq<u8>)>, entry: (i64, Seq<u8>))
    ensures
        0 <= insert_rank(items, entry) <= items.len(),
        forall|j: int| 0 <= j < insert_rank(items, entry) ==> entry_lt(#[trigger] items[j], entry),
        insert_rank(items, entry) < items.len() ==> !entry_lt(
            items[insert_rank(items, entry)],
            entry,
        ),
    decreases items.len(),
{
    if items.len() != 0 && entry_lt(items[0], entry) {
        let rest = items.drop_first();
        lemma_insert_rank(rest, entry);
        assert forall|j: int| 0 <= j < insert_rank(items, entry) implies entry_lt(
            #[trigger] items[j],
            entry,
        ) by {
            if j > 0 {
                assert(items[j] == rest[j - 1]);
            }
        }
        if insert_rank(items, entry) < items.len() {
            assert(items[insert_rank(items, entry)] == rest[insert_rank(rest, entry)]);
        }
    }
}

/// Giving a member a score keeps a well-formed sorted set well formed.
pub proof fn lemma_with_score_ranked(items: Seq<(i64, Seq<u8>)>, member: Seq<u8>, score: i64)
    requires
        ranked(items),
        distinct_members(items),
    ensures
        ranked(with_score(items, member, score)),
        distinct_members(with_score(items, member, score)),
        has_member(with_score(items, member, score), member),
        member_score(with_score(items, member, score), member) == Some(score),
{
    let rest = without_member(items, member);
    let entry = (score, member);
    let at = insert_rank(rest, entry);
    let out = with_score(items, member, score);
    lemma_without_member(items, member);
    lemma_insert_rank(rest, entry);
    assert forall|i: int, j: int| 0 <= i < j < out.len() implies entry_lt(
        #[trigger] out[i],
        #[trigger] out[j],
    ) by {
        if j == at {
            assert(out[i] == rest[i]);
        } else if i == at {
            assert(out[j] == rest[j - 1]);
            assert(!has_member(rest, member));
            assert(rest[at].1 != member);
            lemma_entry_lt_total(rest[at], entry);
            if j - 1 > at {
                lemma_entry_lt_transitive(entry, rest[at], rest[j - 1]);
            }
        } else {
            let ri = if i < at { i } else { i - 1 };
            let rj = if j < at { j } else { j - 1 };
            assert(out[i] == rest[ri]);
            assert(out[j] == rest[rj]);
        }
    }
    assert forall|i: int, j: int|
        0 <= i < out.len() && 0 <= j < out.len() && i != j implies (#[trigger] out[i]).1 != (
    #[trigger] out[j]).1 by {
        let ri = if i < at { i } else { i - 1 };
        let rj = if j < at { j } else { j - 1 };
        if i != at {
            assert(out[i] == rest[ri]);
            assert(rest[ri].1 != member);
        }
        if j != at {
            assert(out[j] == rest[rj]);
            assert(rest[rj].1 != member);
        }
    }
    assert(out[at] == entry);
    lemma_member_index_unique(out, at);
}

/// After a member has left it is absent, and what stays keeps its order.
pub proof fn lemma_without_member(items: Seq<(i64, Seq<u8>)>, member: Seq<u8>)
    requires
        ranked(items),
        distinct_members(items),
    ensures
        ranked(without_member(items, member)),
        distinct_members(without_member(items, member)),
        !has_member(without_member(items, member), member),
{
    let rest = without_member(items, member);
    if has_member(items, member) {
        let at = member_index(items, member);
        assert forall|i: int| 0 <= i < rest.len() implies (#[trigger] rest[i]).1 != member by {
            let k = if i < at { i } else { i + 1 };
            assert(rest[i] == items[k]);
        }
        assert forall|i: int, j: int| 0 <= i < j < rest.len() implies entry_lt(
            #[trigger] rest[i],
            #[trigger] rest[j],
        ) by {
            let ki = if i < at { i } else { i + 1 };
            let kj = if j < at { j } else { j + 1 };
            assert(rest[i] == items[ki]);
            assert(rest[j] == items[kj]);
        }
        assert forall|i: int, j: int|
            0 <= i < rest.len() && 0 <= j < rest.len() && i != j implies (#[trigger] rest[i]).1
            != (#[trigger] rest[j]).1 by {
            let ki = if i < at { i } else { i + 1 };
            let kj = if j < at { j } else { j + 1 };
            assert(rest[i] == items[ki]);
            assert(rest[j] == items[kj]);
        }
    }
}

/// Members ranked by score.
#[derive(Debug)]
pub struct SortedSet {
    items: Vec<(i64, Vec<u8>)>,
}

impl Clone for SortedSet {
    fn clone(&self) -> (copy: SortedSet)
        ensures
            copy@ == self@,
    {
        let items = self.entries();
        let copy = SortedSet { items };
        assert(copy@ =~= self@);
        copy
    }
}

impl View for SortedSet {
    type V = Seq<(i64, Seq<u8>)>;

    /// The scored members, lowest rank first.
    closed spec fn view(&self) -> Seq<(i64, Seq<u8>)> {
        self.items@.map_values(|e: (i64, Vec<u8>)| (e.0, e.1@))
    }
}

impl SortedSet {
    /// Items are in rank order and no member is listed twice.
    pub open spec fn wf(&self) -> bool {
        ranked(self@) && distinct_members(self@)
    }

    /// An empty sorted set.
    pub fn new() -> (set: SortedSet)
        ensures
            set@ == Seq::<(i64, Seq<u8>)>::empty(),
            set.wf(),
    {
        let set = SortedSet { items: Vec::new() };
        assert(set@ =~= Seq::<(i64, Seq<u8>)>::empty());
        set
    }

    /// Number of members.
    pub fn len(&self) -> (n: usize)
        ensures
            n == self@.len(),
    {
        self.items.len()
    }

    /// Position of `member`, if it is present.
    fn position(&self, member: &[u8]) -> (at: Option<usize>)
        ensures
            match at {
                Some(i) => i < self@.len() && self@[i as int].1 == member@,
                None => !has_member(self@, member@),
            },
    {
        let mut i: usize = 0;
        while i < self.items.len()
            invariant
                i <= self.items.len(),
                forall|j: int| 0 <= j < i ==> (#[trigger] self@[j]).1 != member@,
            decreases self.items.len() - i,
        {
            if bytes_eq(self.items[i].1.as_slice(), member) {
                return Some(i);
            }
            i += 1;
        }
        None
    }

    /// The score of `member`, if it is present.
    pub fn score(&self, member: &[u8]) -> (found: Option<i64>)
        requires
            self.wf(),
        ensures
            found == member_score(self@, member@),
    {
        match self.position(member) {
            Some(i) => {
                proof {
                    lemma_member_index_unique(self@, i as int);
                }
                Some(self.items[i].0)
            },
            None => None,
        }
    }

    /// Takes `member` out; says whether it was present.
    pub fn remove(&mut self, member: &[u8]) -> (removed: bool)
        requires
            old(self).wf(),
        ensures
            final(self).wf(),
            removed == has_member(old(self)@, member@),
            final(self)@ == without_member(old(self)@, member@),
    {
        let ghost before = self@;
        proof {
            lemma_without_member(before, member@);
        }
        match self.position(member) {
            Some(i) => {
                proof {
                    lemma_member_index_unique(before, i as int);
                }
                self.items.remove(i);
                assert(self@ =~= before.remove(i as int));
                true
            },
            None => false,
        }
    }

    /// Gives `member` the score `score`, adding it if need be; says
    /// whether it was added.
    pub fn insert(&mut self, member: Vec<u8>, score: i64) -> (added: bool)
        requires
            old(self).wf(),
        ensures
            final(self).wf(),
            added == !has_member(old(self)@, member@),
            final(self)@ == with_score(old(self)@, member@, score),
    {
        let ghost before = self@;
        let was_there = self.remove(member.as_slice());
        let ghost rest = self@;
        let ghost entry = (score, member@);
        let mut at: usize = 0;
        assert(rest.skip(0) =~= rest);
        while at < self.items.len() && (self.items[at].0 < score || (self.items[at].0 == score
            && bytes_lt(self.items[at].1.as_slice(), member.as_slice())))
            invariant
                at <= self.items.len(),
                self@ == rest,
                entry == (score, member@),
                insert_rank(rest, entry) == at + insert_rank(rest.skip(at as int), entry),
            decreases self.items.len() - at,
        {
            assert(rest.skip(at as int)[0] == rest[at as int]);
            assert(rest.skip(at as int).drop_first() =~= rest.skip(at as int + 1));
            at += 1;
        }
        proof {
            if at < rest.len() {
                assert(rest.skip(at as int)[0] == rest[at as int]);
            }
            lemma_with_score_ranked(before, member@, score);
        }
        self.items.insert(at, (score, member));
        assert(self@ =~= rest.insert(at as int, entry));
        !was_there
    }

    /// Copies of the members ranked `start..=stop`, lowest first; negative
    /// ranks count back from the highest.
    pub fn range(&self, start: isize, stop: isize) -> (out: Vec<Vec<u8>>)
        ensures
            out@.len() == slice_of(members_of(self@), start as int, stop as int).len(),
            forall|i: int|
                0 <= i < out@.len() ==> (#[trigger] out@[i])@ == slice_of(
                    members_of(self@),
                    start as int,
                    stop as int,
                )[i],
    {
        let (lo, hi) = resolve_span(self.items.len(), start, stop);
        let mut out: Vec<Vec<u8>> = Vec::new();
        let mut i: usize = lo;
        while i < hi
            invariant
                lo <= i <= hi <= self.items.len(),
                out@.len() == i - lo,
                forall|j: int| 0 <= j < out@.len() ==> (#[trigger] out@[j])@ == self@[lo + j].1,
            decreases hi - i,
        {
            out.push(copy_bytes(self.items[i].1.as_slice()));
            i += 1;
        }
        out
    }

    /// Copies of the members whose score lies between `min` and `max`,
    /// lowest rank first.
    pub fn range_by_score(&self, min: &ScoreBound, max: &ScoreBound) -> (out: Vec<Vec<u8>>)
        ensures
            out@.len() == scored_between(self@, *min, *max).len(),
            forall|i: int|
                0 <= i < out@.len() ==> (#[trigger] out@[i])@ == scored_between(
                    self@,
                    *min,
                    *max,
                )[i].1,
    {
        let ghost keep = score_within(*min, *max);
        let mut out: Vec<Vec<u8>> = Vec::new();
        let mut i: usize = 0;
        assert(self@.take(0).filter(keep) =~= Seq::<(i64, Seq<u8>)>::empty()) by {
            reveal(Seq::filter);
        }
        while i < self.items.len()
            invariant
                i <= self.items.len(),
                keep == score_within(*min, *max),
                out@.len() == self@.take(i as int).filter(keep).len(),
                forall|j: int|
                    0 <= j < out@.len() ==> (#[trigger] out@[j])@ == self@.take(i as int).filter(
                        keep,
                    )[j].1,
            decreases self.items.len() - i,
        {
            proof {
                lemma_filter_push(self@.take(i as int), keep, self@[i as int]);
                assert(self@.take(i as int + 1) =~= self@.take(i as int).push(self@[i as int]));
            }
            let score = self.items[i].0;
            if min.lower_admits(score) && max.upper_admits(score) {
                out.push(copy_bytes(self.items[i].1.as_slice()));
            }
            i += 1;
        }
        assert(self@.take(i as int) =~= self@);
        out
    }

    /// Number of members whose score lies between `min` and `max`.
    pub fn count_by_score(&self, min: &ScoreBound, max: &ScoreBound) -> (n: usize)
        ensures
            n == scored_between(self@, *min, *max).len(),
    {
        let ghost keep = score_within(*min, *max);
        let mut n: usize = 0;
        let mut i: usize = 0;
        assert(self@.take(0).filter(keep) =~= Seq::<(i64, Seq<u8>)>::empty()) by {
            reveal(Seq::filter);
        }
        while i < self.items.len()
            invariant
                i <= self.items.len(),
                keep == score_within(*min, *max),
                n == self@.take(i as int).filter(keep).len(),
                n <= i,
            decreases self.items.len() - i,
        {
            proof {
                lemma_filter_push(self@.take(i as int), keep, self@[i as int]);
                assert(self@.take(i as int + 1) =~= self@.take(i as int).push(self@[i as int]));
            }
            let score = self.items[i].0;
            if min.lower_admits(score) && max.upper_admits(score) {
                n += 1;
            }
            i += 1;
        }
        assert(self@.take(i as int) =~= self@);
        n
    }

    /// Copies of all scored members, lowest rank first.
    pub fn entries(&self) -> (out: Vec<(i64, Vec<u8>)>)
        ensures
            out@.len() == self@.len(),
            forall|i: int|
                0 <= i < out@.len() ==> ((#[trigger] out@[i]).0, out@[i].1@) == self@[i],
    {
        let mut out: Vec<(i64, Vec<u8>)> = Vec::new();
        let mut i: usize = 0;
        while i < self.items.len()
            invariant
                i <= self.items.len(),
                out@.len() == i,
                forall|j: int| 0 <= j < i ==> ((#[trigger] out@[j]).0, out@[j].1@) == self@[j],
            decreases self.items.len() - i,
        {
            out.push((self.items[i].0, copy_bytes(self.items[i].1.as_slice())));
            i += 1;
        }
        out
    }
}

} // verus!
