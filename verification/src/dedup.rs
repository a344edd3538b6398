//! The duplicate-suppression cache: a bounded set of message identifiers.
//! On the insert that would push it past its capacity the cache is cleared
//! in full and only the new identifier is kept — a deliberate memory-bound
//! tradeoff, not an eviction policy.

use vstd::prelude::*;

use std::collections::{HashMap, HashSet};

verus! {

broadcast use vstd::std_specs::hash::group_hash_axioms, vstd::set::group_set_axioms;

/// The largest number of identifiers the cache holds.
pub const DEDUP_CAPACITY: usize = 1500000;

/// A message identifier: 256 bits, held as two halves.
#[derive(Clone, Copy, PartialEq, Eq, Structural, Debug)]
pub struct MsgId {
    pub hi: u128,
    pub lo: u128,
}

/// The duplicate-suppression cache. Identifiers are bucketed by their high
/// half so that membership runs through hash tables with integer keys; the
/// set it represents is its view.
pub struct DedupCache {
    buckets: HashMap<u128, HashSet<u128>>,
    count: usize,
    ids: Ghost<Set<MsgId>>,
}

impl View for DedupCache {
    type V = Set<MsgId>;

    closed spec fn view(&self) -> Set<MsgId> {
        self.ids@
    }
}

/// What recording an identifier does to the cache contents: nothing when
/// it is already present; otherwise it is inserted, after a full clear
/// when the insert would exceed the capacity.
pub open spec fn spec_record(s: Set<MsgId>, id: MsgId) -> Set<MsgId> {
    if s.contains(id) {
        s
    } else if s.len() >= DEDUP_CAPACITY {
        Set::empty().insert(id)
    } else {
        s.insert(id)
    }
}

impl DedupCache {
    /// The cache holds exactly the identifiers of its view, and no more
    /// than its capacity.
    pub closed spec fn wf(&self) -> bool {
        &&& self.ids@.finite()
        &&& self.count == self.ids@.len()
        &&& self.count <= DEDUP_CAPACITY
        &&& forall|id: MsgId|
            self.ids@.contains(id) <==> (self.buckets@.contains_key(id.hi)
                && self.buckets@[id.hi]@.contains(id.lo))
    }

    /// An empty cache.
    pub fn new() -> (r: DedupCache)
        ensures
            r.wf(),
            r@ == Set::<MsgId>::empty(),
    {
        let r = DedupCache { buckets: HashMap::new(), count: 0, ids: Ghost(Set::empty()) };
        proof {
            assert(forall|id: MsgId| !r.buckets@.contains_key(id.hi));
        }
        r
    }

    /// The number of identifiers held.
    pub fn len(&self) -> (n: usize)
        requires
            self.wf(),
        ensures
            n == self@.len(),
    {
        self.count
    }

    /// Membership of `id` in the cache.
    pub fn seen(&self, id: &MsgId) -> (r: bool)
        requires
            self.wf(),
        ensures
            r == self@.contains(*id),
    {
        match self.buckets.get(&id.hi) {
            Some(bucket) => {
                let r = bucket.contains(&id.lo);
                proof {
                    assert(self.buckets@.contains_key(id.hi) && self.buckets@[id.hi] == *bucket);
                }
                r
            },
            None => {
                proof {
                    assert(!self.buckets@.contains_key(id.hi));
                }
                false
            },
        }
    }

    /// Records `id`: inserts it, clearing the whole cache first when the
    /// insert would exceed the capacity.
    pub fn record(&mut self, id: MsgId)
        requires
            old(self).wf(),
        ensures
            final(self).wf(),
            final(self)@ == spec_record(old(self)@, id),
    {
        if self.seen(&id) {
            return ;
        }
        if self.count >= DEDUP_CAPACITY {
            self.buckets = HashMap::new();
            self.count = 0;
            self.ids = Ghost(Set::empty());
            proof {
                assert(forall|x: MsgId| !self.buckets@.contains_key(x.hi));
            }
        }
        let ghost mid_ids = self.ids@;
        let ghost mid_map = self.buckets@;
        let mut bucket = match self.buckets.remove(&id.hi) {
            Some(b) => b,
            None => HashSet::new(),
        };
        let ghost old_bucket = bucket@;
        bucket.insert(id.lo);
        self.buckets.insert(id.hi, bucket);
        self.count = self.count + 1;
        self.ids = Ghost(self.ids@.insert(id));
        proof {
            assert(self.buckets@ =~= mid_map.insert(id.hi, bucket));
            assert(bucket@ == old_bucket.insert(id.lo));
            assert forall|x: MsgId|
                self.ids@.contains(x) <==> (self.buckets@.contains_key(x.hi)
                    && self.buckets@[x.hi]@.contains(x.lo)) by {
                if x.hi == id.hi {
                    if x.lo != id.lo {
                        assert(mid_ids.contains(x) <==> (mid_map.contains_key(x.hi)
                            && mid_map[x.hi]@.contains(x.lo)));
                    }
                } else {
                    assert(mid_ids.contains(x) <==> (mid_map.contains_key(x.hi)
                        && mid_map[x.hi]@.contains(x.lo)));
                }
            }
        }
    }
}

/// Law: whatever is recorded, the cache cardinality never exceeds the
/// capacity.
pub proof fn lemma_record_bounded(s: Set<MsgId>, id: MsgId)
    requires
        s.finite(),
        s.len() <= DEDUP_CAPACITY,
    ensures
        spec_record(s, id).finite(),
        spec_record(s, id).len() <= DEDUP_CAPACITY,
{
    broadcast use vstd::set::group_set_axioms;

}

/// Law: a record call leaves the recorded identifier in the cache.
pub proof fn lemma_record_contains(s: Set<MsgId>, id: MsgId)
    requires
        s.finite(),
    ensures
        spec_record(s, id).contains(id),
{
    broadcast use vstd::set::group_set_axioms;

}

/// Law: the insert that would exceed the capacity clears the cache; every
/// identifier recorded before it, other than the new one, is forgotten,
/// and only the new one remains.
pub proof fn lemma_record_reset(s: Set<MsgId>, id: MsgId, prior: MsgId)
    requires
        s.finite(),
        s.len() >= DEDUP_CAPACITY,
        !s.contains(id),
        prior != id,
    ensures
        spec_record(s, id).len() == 1,
        spec_record(s, id).contains(id),
        !spec_record(s, id).contains(prior),
{
    broadcast use vstd::set::group_set_axioms;

    assert(Set::<MsgId>::empty().insert(id).len() == 1);
}

} // verus!
