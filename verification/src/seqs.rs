//! Facts about filtering sequences that the collection types share.

use vstd::prelude::*;

verus! {

/// Filtering a sequence extended by one item filters the item on its own.
pub proof fn lemma_filter_push<T>(s: Seq<T>, keep: spec_fn(T) -> bool, x: T)
    ensures
        s.push(x).filter(keep) == if keep(x) {
            s.filter(keep).push(x)
        } else {
            s.filter(keep)
        },
{
    reveal(Seq::filter);
    assert(s.push(x).drop_last() =~= s);
}

/// A filter whose test every item passes keeps the sequence as it is.
pub proof fn lemma_filter_all<T>(s: Seq<T>, keep: spec_fn(T) -> bool)
    requires
        forall|i: int| 0 <= i < s.len() ==> keep(#[trigger] s[i]),
    ensures
        s.filter(keep) == s,
    decreases s.len(),
{
    if s.len() == 0 {
        assert(s.filter(keep) =~= s) by {
            reveal(Seq::filter);
        }
    } else {
        let front = s.drop_last();
        assert forall|i: int| 0 <= i < front.len() implies keep(#[trigger] front[i]) by {
            assert(front[i] == s[i]);
        }
        lemma_filter_all(front, keep);
        lemma_filter_push(front, keep, s.last());
        assert(s =~= front.push(s.last()));
    }
}

/// A filter that rejects some item returns fewer items than it was given.
pub proof fn lemma_filter_len_strict<T>(s: Seq<T>, keep: spec_fn(T) -> bool, i: int)
    requires
        0 <= i < s.len(),
        !keep(s[i]),
    ensures
        s.filter(keep).len() < s.len(),
    decreases s.len(),
{
    let front = s.drop_last();
    lemma_filter_push(front, keep, s.last());
    assert(s =~= front.push(s.last()));
    front.lemma_filter_len(keep);
    if i < s.len() - 1 {
        assert(front[i] == s[i]);
        lemma_filter_len_strict(front, keep, i);
    }
}

/// What a filter keeps is what the sequence held and the test accepts.
pub proof fn lemma_filter_members<T>(s: Seq<T>, keep: spec_fn(T) -> bool)
    ensures
        forall|x: T| #[trigger] s.filter(keep).contains(x) <==> s.contains(x) && keep(x),
    decreases s.len(),
{
    if s.len() == 0 {
        assert(s.filter(keep) =~= Seq::<T>::empty()) by {
            reveal(Seq::filter);
        }
    } else {
        let front = s.drop_last();
        let last = s.last();
        lemma_filter_members(front, keep);
        lemma_filter_push(front, keep, last);
        assert(s =~= front.push(last));
        let kept = front.filter(keep);
        let whole = s.filter(keep);
        assert(whole == if keep(last) {
            kept.push(last)
        } else {
            kept
        });
        assert forall|x: T| #[trigger] whole.contains(x) <==> s.contains(x) && keep(x) by {
            if whole.contains(x) {
                let i = choose|i: int| 0 <= i < whole.len() && whole[i] == x;
                if i < kept.len() {
                    assert(kept[i] == x);
                    assert(kept.contains(x));
                    assert(front.contains(x));
                    let j = choose|j: int| 0 <= j < front.len() && front[j] == x;
                    assert(s[j] == x);
                } else {
                    assert(x == last);
                    assert(s[s.len() - 1] == x);
                }
            }
            if s.contains(x) && keep(x) {
                let j = choose|j: int| 0 <= j < s.len() && s[j] == x;
                if j < front.len() {
                    assert(front[j] == x);
                    assert(front.contains(x));
                    assert(kept.contains(x));
                    let i = choose|i: int| 0 <= i < kept.len() && kept[i] == x;
                    assert(whole[i] == x);
                } else {
                    assert(x == last);
                    assert(whole[whole.len() - 1] == x);
                }
            }
        }
    }
}

/// Filtering a prefix gives a prefix of the filtered whole.
pub proof fn lemma_filter_prefix<T>(s: Seq<T>, keep: spec_fn(T) -> bool, n: int)
    requires
        0 <= n <= s.len(),
    ensures
        s.take(n).filter(keep).len() <= s.filter(keep).len(),
        s.take(n).filter(keep) == s.filter(keep).take(s.take(n).filter(keep).len() as int),
    decreases s.len() - n,
{
    if n == s.len() {
        assert(s.take(n) =~= s);
        assert(s.filter(keep).take(s.filter(keep).len() as int) =~= s.filter(keep));
    } else {
        lemma_filter_prefix(s, keep, n + 1);
        lemma_filter_push(s.take(n), keep, s[n]);
        assert(s.take(n + 1) =~= s.take(n).push(s[n]));
        let longer = s.take(n + 1).filter(keep);
        let shorter = s.take(n).filter(keep);
        assert(shorter =~= longer.take(shorter.len() as int));
        assert(shorter =~= s.filter(keep).take(shorter.len() as int));
    }
}

} // verus!
