//! The process-lifetime record of activity ids already hidden. It only
//! grows; an id once recorded is never re-matched or re-hidden while the
//! process lives.

use vstd::prelude::*;

verus! {

/// The set of activity ids this process has already hidden.
pub struct ProcessedMemory {
    ids: Vec<u64>,
}

impl View for ProcessedMemory {
    type V = Set<u64>;

    closed spec fn view(&self) -> Set<u64> {
        self.ids@.to_set()
    }
}

impl ProcessedMemory {
    /// The empty record a fresh process starts with.
    pub fn new() -> (s: Self)
        ensures
            s@ == Set::<u64>::empty(),
    {
        let s = ProcessedMemory { ids: Vec::new() };
        proof {
            assert(s@ =~= Set::<u64>::empty());
        }
        s
    }

    /// Whether this id has already been hidden by this process.
    pub fn contains(&self, activity_id: u64) -> (r: bool)
        ensures
            r == self@.contains(activity_id),
    {
        let mut i: usize = 0;
        while i < self.ids.len()
            invariant
                i <= self.ids.len(),
                forall|k: int| 0 <= k < i ==> self.ids@[k] != activity_id,
            decreases self.ids.len() - i,
        {
            if self.ids[i] == activity_id {
                return true;
            }
            i += 1;
        }
        proof {
            assert(!self.ids@.contains(activity_id));
        }
        false
    }

    /// Records an id as hidden. The record only ever grows.
    pub fn insert(&mut self, activity_id: u64)
        ensures
            final(self)@ == old(self)@.insert(activity_id),
    {
        proof {
            broadcast use vstd::prelude::Seq::lemma_push_to_set_commute;
        }
        self.ids.push(activity_id);
    }
}

} // verus!
