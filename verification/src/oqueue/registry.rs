//! A registry of named values (oqueue references) for servers to find each other's queues.

use vstd::prelude::*;

verus! {

/// A set of values filed under names. Registering a name again replaces its value.
pub struct Registry<V> {
    entries: Vec<(String, V)>,
}

impl<V> Registry<V> {
    /// The value filed under `name`, if any.
    pub closed spec fn get(&self, name: Seq<char>) -> Option<V> {
        if exists|i: int| 0 <= i < self.entries@.len() && #[trigger] self.entries@[i].0@ == name {
            let i = choose|i: int| 0 <= i < self.entries@.len() && #[trigger] self.entries@[i].0@ == name;
            Some(self.entries@[i].1)
        } else {
            None
        }
    }

    /// No name is filed twice.
    pub closed spec fn wf(&self) -> bool {
        forall|i: int, j: int|
            0 <= i < j < self.entries@.len() ==> #[trigger] self.entries@[i].0@ != #[trigger] self.entries@[j].0@
    }

    proof fn lemma_get_at(&self, i: int)
        requires
            self.wf(),
            0 <= i < self.entries@.len(),
        ensures
            self.get(self.entries@[i].0@) == Some(self.entries@[i].1),
    {
        let name = self.entries@[i].0@;
        assert(self.entries@[i].0@ == name);
        let k = choose|k: int| 0 <= k < self.entries@.len() && #[trigger] self.entries@[k].0@ == name;
        if k != i {
            if k < i {
                assert(self.entries@[k].0@ != self.entries@[i].0@);
            } else {
                assert(self.entries@[i].0@ != self.entries@[k].0@);
            }
        }
    }

    /// An empty registry.
    pub fn new() -> (r: Self)
        ensures
            r.wf(),
            forall|name: Seq<char>| r.get(name) is None,
    {
        Registry { entries: Vec::new() }
    }

    fn find(&self, name: &String) -> (r: Option<usize>)
        requires
            self.wf(),
        ensures
            r is None ==> self.get(name@) is None,
            r is Some ==> r->0 < self.entries@.len() && self.entries@[r->0 as int].0@ == name@,
    {
        let mut i: usize = 0;
        while i < self.entries.len()
            invariant
                i <= self.entries@.len(),
                forall|j: int| 0 <= j < i ==> self.entries@[j].0@ != name@,
            decreases self.entries@.len() - i,
        {
            if self.entries[i].0 == *name {
                return Some(i);
            }
            i = i + 1;
        }
        None
    }
}

/// File `v` under `name`, replacing what was filed under it before.
pub fn register<V>(registry: &mut Registry<V>, name: &str, v: V)
    requires
        old(registry).wf(),
    ensures
        final(registry).wf(),
        final(registry).get(name@) == Some(v),
        forall|other: Seq<char>| other != name@ ==> final(registry).get(other) == old(registry).get(other),
{
    let key = name.to_owned();
    let ghost pre = *registry;
    match registry.find(&key) {
        Some(i) => {
            registry.entries.set(i, (key, v));
            proof {
                assert forall|a: int, b: int|
                    0 <= a < b < registry.entries@.len() implies #[trigger] registry.entries@[a].0@
                    != #[trigger] registry.entries@[b].0@ by {
                    assert(pre.entries@[a].0@ != pre.entries@[b].0@);
                }
                registry.lemma_get_at(i as int);
                assert forall|other: Seq<char>| other != name@ implies registry.get(other)
                    == pre.get(other) by {
                    if exists|k: int| 0 <= k < pre.entries@.len() && #[trigger] pre.entries@[k].0@ == other {
                        let k = choose|k: int| 0 <= k < pre.entries@.len() && #[trigger] pre.entries@[k].0@ == other;
                        pre.lemma_get_at(k);
                        assert(registry.entries@[k] == pre.entries@[k]);
                        registry.lemma_get_at(k);
                    } else {
                        assert forall|k: int| 0 <= k < registry.entries@.len() implies #[trigger] registry.entries@[k].0@ != other by {
                            if k != i as int {
                                assert(registry.entries@[k] == pre.entries@[k]);
                            }
                        }
                    }
                }
            }
        },
        None => {
            registry.entries.push((key, v));
            proof {
                let n = pre.entries@.len() as int;
                assert forall|a: int, b: int|
                    0 <= a < b < registry.entries@.len() implies #[trigger] registry.entries@[a].0@
                    != #[trigger] registry.entries@[b].0@ by {
                    if b == n {
                        assert(pre.entries@[a].0@ != name@);
                    } else {
                        assert(pre.entries@[a].0@ != pre.entries@[b].0@);
                    }
                }
                registry.lemma_get_at(n);
                assert forall|other: Seq<char>| other != name@ implies registry.get(other)
                    == pre.get(other) by {
                    if exists|k: int| 0 <= k < pre.entries@.len() && #[trigger] pre.entries@[k].0@ == other {
                        let k = choose|k: int| 0 <= k < pre.entries@.len() && #[trigger] pre.entries@[k].0@ == other;
                        pre.lemma_get_at(k);
                        assert(registry.entries@[k] == pre.entries@[k]);
                        registry.lemma_get_at(k);
                    } else {
                        assert forall|k: int| 0 <= k < registry.entries@.len() implies #[trigger] registry.entries@[k].0@ != other by {
                            if k < n {
                                assert(registry.entries@[k] == pre.entries@[k]);
                            }
                        }
                    }
                }
            }
        },
    }
}

/// A clone of the value filed under `name`, or `None` when nothing is filed under it.
pub fn lookup<V: Clone>(registry: &Registry<V>, name: &str) -> (r: Option<V>)
    requires
        registry.wf(),
    ensures
        r is None <==> registry.get(name@) is None,
        r is Some ==> cloned(registry.get(name@)->0, r->0),
{
    let key = name.to_owned();
    match registry.find(&key) {
        None => None,
        Some(i) => {
            proof {
                registry.lemma_get_at(i as int);
            }
            Some(registry.entries[i].1.clone())
        },
    }
}

} // verus!
