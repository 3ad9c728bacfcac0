//! The set value: unique byte strings, held in the order they were added.

use vstd::prelude::*;
use crate::bytes::{bytes_eq, copy_bytes};

verus! {

/// A collection of distinct byte strings.
#[derive(Debug)]
pub struct ByteSet {
    members: Vec<Vec<u8>>,
}

impl View for ByteSet {
    type V = Seq<Seq<u8>>;

    /// The members, oldest first.
    closed spec fn view(&self) -> Seq<Seq<u8>> {
        self.members@.map_values(|m: Vec<u8>| m@)
    }
}

impl Clone for ByteSet {
    fn clone(&self) -> (copy: ByteSet)
        ensures
            copy@ == self@,
    {
        let members = self.members();
        let copy = ByteSet { members };
        assert(copy@ =~= self@);
        copy
    }
}

/// The members other than `member`.
pub open spec fn without_member(members: Seq<Seq<u8>>, member: Seq<u8>) -> Seq<Seq<u8>> {
    if members.contains(member) {
        members.remove(members.index_of(member))
    } else {
        members
    }
}

impl ByteSet {
    /// No member occurs twice.
    pub open spec fn wf(&self) -> bool {
        self@.no_duplicates()
    }

    /// Whether `member` belongs to the set.
    pub open spec fn has(&self, member: Seq<u8>) -> bool {
        self@.contains(member)
    }

    /// An empty set.
    pub fn new() -> (set: ByteSet)
        ensures
            set@ == Seq::<Seq<u8>>::empty(),
            set.wf(),
    {
        let set = ByteSet { members: Vec::new() };
        assert(set@ =~= Seq::<Seq<u8>>::empty());
        set
    }

    /// Number of members.
    pub fn len(&self) -> (n: usize)
        ensures
            n == self@.len(),
    {
        self.members.len()
    }

    /// Position of `member`, if it is present.
    fn position(&self, member: &[u8]) -> (at: Option<usize>)
        ensures
            match at {
                Some(i) => i < self@.len() && self@[i as int] == member@,
                None => !self@.contains(member@),
            },
    {
        let mut i: usize = 0;
        while i < self.members.len()
            invariant
                i <= self.members.len(),
                forall|j: int| 0 <= j < i ==> self@[j] != member@,
            decreases self.members.len() - i,
        {
            if bytes_eq(self.members[i].as_slice(), member) {
                return Some(i);
            }
            i += 1;
        }
        None
    }

    /// Whether `member` belongs to the set.
    pub fn contains(&self, member: &[u8]) -> (found: bool)
        ensures
            found == self@.contains(member@),
    {
        self.position(member).is_some()
    }

    /// Adds `member` unless it is already present; says whether it was added.
    pub fn insert(&mut self, member: Vec<u8>) -> (added: bool)
        requires
            old(self).wf(),
        ensures
            final(self).wf(),
            added == !old(self)@.contains(member@),
            final(self)@ == if added {
                old(self)@.push(member@)
            } else {
                old(self)@
            },
    {
        match self.position(member.as_slice()) {
            Some(_) => false,
            None => {
                let ghost before = self@;
                self.members.push(member);
                assert(self@ =~= before.push(member@));
                true
            },
        }
    }

    /// Removes `member` if present; says whether it was there.
    pub fn remove(&mut self, member: &[u8]) -> (removed: bool)
        requires
            old(self).wf(),
        ensures
            final(self).wf(),
            removed == old(self)@.contains(member@),
            final(self)@ == without_member(old(self)@, member@),
    {
        let ghost before = self@;
        match self.position(member) {
            Some(i) => {
                self.members.remove(i);
                assert(self@ =~= before.remove(i as int));
                assert(before.index_of(member@) == i);
                true
            },
            None => false,
        }
    }

    /// Removes and returns the oldest member, if any.
    pub fn pop(&mut self) -> (popped: Option<Vec<u8>>)
        requires
            old(self).wf(),
        ensures
            final(self).wf(),
            match popped {
                Some(m) => old(self)@.len() > 0 && m@ == old(self)@[0] && final(self)@
                    == old(self)@.drop_first(),
                None => old(self)@.len() == 0 && final(self)@ == old(self)@,
            },
    {
        if self.members.len() == 0 {
            None
        } else {
            let ghost before = self@;
            let m = self.members.remove(0);
            assert(self@ =~= before.drop_first());
            Some(m)
        }
    }

    /// Copies of all members, oldest first.
    pub fn members(&self) -> (out: Vec<Vec<u8>>)
        ensures
            out@.len() == self@.len(),
            forall|i: int| 0 <= i < out@.len() ==> (#[trigger] out@[i])@ == self@[i],
    {
        let mut out: Vec<Vec<u8>> = Vec::new();
        let mut i: usize = 0;
        while i < self.members.len()
            invariant
                i <= self.members.len(),
                out@.len() == i,
                forall|j: int| 0 <= j < i ==> (#[trigger] out@[j])@ == self@[j],
            decreases self.members.len() - i,
        {
            out.push(copy_bytes(self.members[i].as_slice()));
            i += 1;
        }
        out
    }
}

} // verus!
