//! The hash value: field/value pairs with distinct field names.

use vstd::prelude::*;
use crate::bytes::{bytes_eq, copy_bytes};

verus! {

/// Whether some pair of `pairs` is keyed by `field`.
pub open spec fn has_field(pairs: Seq<(Seq<u8>, Seq<u8>)>, field: Seq<u8>) -> bool {
    exists|i: int| 0 <= i < pairs.len() && (#[trigger] pairs[i]).0 == field
}

/// Position of the pair keyed by `field`; meaningful when there is one.
pub open spec fn field_index(pairs: Seq<(Seq<u8>, Seq<u8>)>, field: Seq<u8>) -> int {
    choose|i: int| 0 <= i < pairs.len() && (#[trigger] pairs[i]).0 == field
}

/// The value stored under `field`, if any.
pub open spec fn field_value(pairs: Seq<(Seq<u8>, Seq<u8>)>, field: Seq<u8>) -> Option<Seq<u8>> {
    if has_field(pairs, field) {
        Some(pairs[field_index(pairs, field)].1)
    } else {
        None
    }
}

/// No two pairs share a field name.
pub open spec fn distinct_fields(pairs: Seq<(Seq<u8>, Seq<u8>)>) -> bool {
    forall|i: int, j: int|
        0 <= i < pairs.len() && 0 <= j < pairs.len() && i != j ==> (#[trigger] pairs[i]).0 != (
        #[trigger] pairs[j]).0
}

/// The pairs after storing `value` under `field`: an existing pair keeps
/// its place, a new one goes to the end.
pub open spec fn with_field(pairs: Seq<(Seq<u8>, Seq<u8>)>, field: Seq<u8>, value: Seq<u8>) -> Seq<
    (Seq<u8>, Seq<u8>),
> {
    if has_field(pairs, field) {
        pairs.update(field_index(pairs, field), (field, value))
    } else {
        pairs.push((field, value))
    }
}

/// The pairs after dropping whatever is stored under `field`.
pub open spec fn without_field(pairs: Seq<(Seq<u8>, Seq<u8>)>, field: Seq<u8>) -> Seq<
    (Seq<u8>, Seq<u8>),
> {
    if has_field(pairs, field) {
        pairs.remove(field_index(pairs, field))
    } else {
        pairs
    }
}

/// In a sequence with distinct fields, the pair keyed by a field is
/// found at one position only.
pub proof fn lemma_field_index_unique(pairs: Seq<(Seq<u8>, Seq<u8>)>, i: int)
    requires
        distinct_fields(pairs),
        0 <= i < pairs.len(),
    ensures
        has_field(pairs, pairs[i].0),
        field_index(pairs, pairs[i].0) == i,
{
    let field = pairs[i].0;
    assert(0 <= i < pairs.len() && pairs[i].0 == field);
    let j = field_index(pairs, field);
    assert(0 <= j < pairs.len() && pairs[j].0 == field);
}

/// A mapping from field names to values.
#[derive(Debug)]
pub struct FieldMap {
    pairs: Vec<(Vec<u8>, Vec<u8>)>,
}

impl Clone for FieldMap {
    fn clone(&self) -> (copy: FieldMap)
        ensures
            copy@ == self@,
    {
        let pairs = self.pairs();
        let copy = FieldMap { pairs };
        assert(copy@ =~= self@);
        copy
    }
}

impl View for FieldMap {
    type V = Seq<(Seq<u8>, Seq<u8>)>;

    /// The pairs, in the order their fields were first stored.
    closed spec fn view(&self) -> Seq<(Seq<u8>, Seq<u8>)> {
        self.pairs@.map_values(|p: (Vec<u8>, Vec<u8>)| (p.0@, p.1@))
    }
}

impl FieldMap {
    /// Field names are distinct.
    pub open spec fn wf(&self) -> bool {
        distinct_fields(self@)
    }

    /// An empty hash.
    pub fn new() -> (map: FieldMap)
        ensures
            map@ == Seq::<(Seq<u8>, Seq<u8>)>::empty(),
            map.wf(),
    {
        let map = FieldMap { pairs: Vec::new() };
        assert(map@ =~= Seq::<(Seq<u8>, Seq<u8>)>::empty());
        map
    }

    /// Number of fields.
    pub fn len(&self) -> (n: usize)
        ensures
            n == self@.len(),
    {
        self.pairs.len()
    }

    /// Position of the pair keyed by `field`, if there is one.
    fn position(&self, field: &[u8]) -> (at: Option<usize>)
        ensures
            match at {
                Some(i) => i < self@.len() && self@[i as int].0 == field@,
                None => !has_field(self@, field@),
            },
    {
        let mut i: usize = 0;
        while i < self.pairs.len()
            invariant
                i <= self.pairs.len(),
                forall|j: int| 0 <= j < i ==> (#[trigger] self@[j]).0 != field@,
            decreases self.pairs.len() - i,
        {
            if bytes_eq(self.pairs[i].0.as_slice(), field) {
                return Some(i);
            }
            i += 1;
        }
        None
    }

    /// Whether something is stored under `field`.
    pub fn contains(&self, field: &[u8]) -> (found: bool)
        ensures
            found == has_field(self@, field@),
    {
        self.position(field).is_some()
    }

    /// A copy of the value stored under `field`.
    pub fn get(&self, field: &[u8]) -> (value: Option<Vec<u8>>)
        requires
            self.wf(),
        ensures
            match value {
                Some(v) => field_value(self@, field@) == Some(v@),
                None => field_value(self@, field@) is None,
            },
    {
        match self.position(field) {
            Some(i) => {
                proof {
                    lemma_field_index_unique(self@, i as int);
                }
                Some(copy_bytes(self.pairs[i].1.as_slice()))
            },
            None => None,
        }
    }

    /// Stores `value` under `field`; says whether the field is new.
    pub fn insert(&mut self, field: Vec<u8>, value: Vec<u8>) -> (created: bool)
        requires
            old(self).wf(),
        ensures
            final(self).wf(),
            created == !has_field(old(self)@, field@),
            final(self)@ == with_field(old(self)@, field@, value@),
    {
        let ghost before = self@;
        match self.position(field.as_slice()) {
            Some(i) => {
                proof {
                    lemma_field_index_unique(before, i as int);
                }
                self.pairs[i] = (field, value);
                assert(self@ =~= before.update(i as int, (field@, value@)));
                false
            },
            None => {
                self.pairs.push((field, value));
                assert(self@ =~= before.push((field@, value@)));
                true
            },
        }
    }

    /// Drops the pair keyed by `field`; says whether there was one.
    pub fn remove(&mut self, field: &[u8]) -> (removed: bool)
        requires
            old(self).wf(),
        ensures
            final(self).wf(),
            removed == has_field(old(self)@, field@),
            final(self)@ == without_field(old(self)@, field@),
    {
        let ghost before = self@;
        match self.position(field) {
            Some(i) => {
                proof {
                    lemma_field_index_unique(before, i as int);
                }
                self.pairs.remove(i);
                assert(self@ =~= before.remove(i as int));
                true
            },
            None => false,
        }
    }

    /// Copies of all pairs, in order.
    pub fn pairs(&self) -> (out: Vec<(Vec<u8>, Vec<u8>)>)
        ensures
            out@.len() == self@.len(),
            forall|i: int|
                0 <= i < out@.len() ==> ((#[trigger] out@[i]).0@, out@[i].1@) == self@[i],
    {
        let mut out: Vec<(Vec<u8>, Vec<u8>)> = Vec::new();
        let mut i: usize = 0;
        while i < self.pairs.len()
            invariant
                i <= self.pairs.len(),
                out@.len() == i,
                forall|j: int| 0 <= j < i ==> ((#[trigger] out@[j]).0@, out@[j].1@) == self@[j],
            decreases self.pairs.len() - i,
        {
            let field = copy_bytes(self.pairs[i].0.as_slice());
            let value = copy_bytes(self.pairs[i].1.as_slice());
            out.push((field, value));
            i += 1;
        }
        out
    }
}

} // verus!
