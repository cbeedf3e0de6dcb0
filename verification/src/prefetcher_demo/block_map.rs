//! A map from block numbers to values, held in a std `HashMap`.

use vstd::prelude::*;
use std::collections::HashMap;

verus! {

broadcast use vstd::std_specs::hash::group_hash_axioms;

/// `k` is the least key of `m`.
pub open spec fn is_least_key<V>(m: Map<usize, V>, k: usize) -> bool {
    m.contains_key(k) && forall|k2: usize| #[trigger] m.contains_key(k2) ==> k <= k2
}

/// A map from block numbers to values.
pub struct BlockMap<V> {
    map: HashMap<usize, V>,
}

impl<V> BlockMap<V> {
    /// The map's contents.
    pub closed spec fn view(&self) -> Map<usize, V> {
        self.map@
    }

    /// The number of keys in the map.
    pub open spec fn count(&self) -> nat {
        self@.len()
    }

    /// The map holds finitely many keys.
    pub closed spec fn wf(&self) -> bool {
        self.map@.dom().finite()
    }

    /// An empty map.
    pub fn new() -> (r: Self)
        ensures
            r.wf(),
            r@ == Map::<usize, V>::empty(),
            r.count() == 0,
    {
        BlockMap { map: HashMap::new() }
    }

    /// The number of keys.
    pub fn len(&self) -> (r: usize)
        ensures
            r == self.count(),
    {
        self.map.len()
    }

    /// Whether `k` is a key.
    pub fn contains_key(&self, k: usize) -> (r: bool)
        requires
            self.wf(),
        ensures
            r == self@.contains_key(k),
    {
        self.map.contains_key(&k)
    }

    /// A reference to the value under `k`, if any.
    pub fn get(&self, k: usize) -> (r: Option<&V>)
        requires
            self.wf(),
        ensures
            r is None <==> !self@.contains_key(k),
            r is Some ==> *r->0 == self@[k],
    {
        self.map.get(&k)
    }

    /// Put `v` under a key that is not in the map yet.
    pub fn insert_new(&mut self, k: usize, v: V)
        requires
            old(self).wf(),
            !old(self)@.contains_key(k),
        ensures
            final(self).wf(),
            final(self)@ == old(self)@.insert(k, v),
            final(self).count() == old(self).count() + 1,
    {
        self.map.insert(k, v);
    }

    /// Take the value under `k` out of the map, if any.
    pub fn remove(&mut self, k: usize) -> (r: Option<V>)
        requires
            old(self).wf(),
        ensures
            final(self).wf(),
            !old(self)@.contains_key(k) ==> r is None && final(self)@ == old(self)@ && final(self).count()
                == old(self).count(),
            old(self)@.contains_key(k) ==> r == Some(old(self)@[k]) && final(self)@ == old(self)@.remove(k)
                && final(self).count() == old(self).count() - 1,
    {
        let r = self.map.remove(&k);
        proof {
            if !old(self)@.contains_key(k) {
                assert(self.map@ =~= old(self)@);
            }
        }
        r
    }

    /// The least key; the map must not be empty.
    pub fn least_key(&self) -> (r: usize)
        requires
            self.wf(),
            self.count() > 0,
        ensures
            is_least_key(self@, r),
    {
        let mut best: Option<usize> = None;
        let ghost mut seen: Set<usize> = Set::empty();
        for k in it: self.map.keys()
            invariant
                self.wf(),
                it.seq().unref().to_set() == self@.dom(),
                seen.subset_of(self@.dom()),
                forall|k2: usize| #[trigger]
                    self@.contains_key(k2) ==> seen.contains(k2) || exists|j: int|
                        it.index() <= j < it.seq().len() && *it.seq()[j] == k2,
                best is None ==> seen =~= Set::<usize>::empty(),
                best matches Some(b) ==> seen.contains(b) && forall|k2: usize|
                    #[trigger] seen.contains(k2) ==> b <= k2,
        {
            let key: usize = *k;
            assert(self@.contains_key(key)) by {
                assert(it.seq().unref()[it.index()] == key);
                assert(it.seq().unref().to_set().contains(key));
            }
            match best {
                None => {
                    best = Some(key);
                },
                Some(b) => {
                    if key < b {
                        best = Some(key);
                    }
                },
            }
            proof {
                seen = seen.insert(key);
            }
        }
        proof {
            if best is None {
                assert(self@.dom() =~= Set::<usize>::empty());
            }
        }
        let b = best.unwrap();
        proof {
            assert forall|k2: usize| #[trigger] self@.contains_key(k2) implies b <= k2 by {
                assert(seen.contains(k2));
            }
        }
        b
    }
}

} // verus!
