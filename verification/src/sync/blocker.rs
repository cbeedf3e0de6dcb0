use vstd::prelude::*;

verus! {

/// The ids in a list of `(id, task)` entries.
pub open spec fn ids_of<T>(entries: Seq<(u64, T)>) -> Seq<u64> {
    entries.map_values(|e: (u64, T)| e.0)
}

/// A wait list: the tasks to wake when a blocker may succeed. Each task is listed at most once,
/// identified by its id.
pub struct TaskList<T> {
    tasks: Vec<(u64, T)>,
}

impl<T> View for TaskList<T> {
    type V = Seq<(u64, T)>;

    closed spec fn view(&self) -> Seq<(u64, T)> {
        self.tasks@
    }
}

impl<T> TaskList<T> {
    /// No id is listed twice.
    pub open spec fn wf(&self) -> bool {
        ids_of(self@).no_duplicates()
    }

    /// An empty wait list.
    pub fn new() -> (r: Self)
        ensures
            r.wf(),
            r@ == Seq::<(u64, T)>::empty(),
    {
        let r = TaskList { tasks: Vec::new() };
        assert(ids_of(r@) =~= Seq::<u64>::empty());
        r
    }

    fn position(&self, id: u64) -> (r: Option<usize>)
        ensures
            r is None ==> !ids_of(self@).contains(id),
            r is Some ==> r->0 < self@.len() && self@[r->0 as int].0 == id && forall|j: int|
                0 <= j < r->0 ==> self@[j].0 != id,
    {
        let mut i: usize = 0;
        while i < self.tasks.len()
            invariant
                i <= self.tasks@.len(),
                forall|j: int| 0 <= j < i ==> self@[j].0 != id,
            decreases self.tasks@.len() - i,
        {
            if self.tasks[i].0 == id {
                return Some(i);
            }
            i = i + 1;
        }
        proof {
            if ids_of(self@).contains(id) {
                let j = choose|j: int| 0 <= j < ids_of(self@).len() && ids_of(self@)[j] == id;
                assert(self@[j].0 == id);
            }
        }
        None
    }

    /// Add a task to the list, unless a task with the same id is already listed.
    pub fn add_task(&mut self, id: u64, task: T)
        requires
            old(self).wf(),
        ensures
            final(self).wf(),
            ids_of(old(self)@).contains(id) ==> final(self)@ == old(self)@,
            !ids_of(old(self)@).contains(id) ==> final(self)@ == old(self)@.push((id, task)),
    {
        match self.position(id) {
            Some(i) => {
                assert(ids_of(self@)[i as int] == id);
            },
            None => {
                let ghost pre = self@;
                self.tasks.push((id, task));
                proof {
                    assert(ids_of(self@) =~= ids_of(pre).push(id));
                }
            },
        }
    }

    /// Remove the task with the given id from the list, if it is listed.
    pub fn remove_task(&mut self, id: u64)
        requires
            old(self).wf(),
        ensures
            final(self).wf(),
            !ids_of(final(self)@).contains(id),
            !ids_of(old(self)@).contains(id) ==> final(self)@ == old(self)@,
            ids_of(old(self)@).contains(id) ==> exists|i: int|
                0 <= i < old(self)@.len() && old(self)@[i].0 == id && final(self)@ == old(
                    self,
                )@.remove(i),
    {
        match self.position(id) {
            None => {},
            Some(i) => {
                let ghost pre = self@;
                self.tasks.remove(i);
                proof {
                    assert(ids_of(self@) =~= ids_of(pre).remove(i as int));
                    assert(ids_of(pre)[i as int] == id);
                    if ids_of(self@).contains(id) {
                        let j = choose|j: int| 0 <= j < ids_of(self@).len() && ids_of(self@)[j] == id;
                        if j < i {
                            assert(ids_of(pre)[j] == id);
                        } else {
                            assert(ids_of(pre)[j + 1] == id);
                        }
                    }
                }
            },
        }
    }

    /// Take every listed task out of the list, to wake them all.
    pub fn wake_all(&mut self) -> (r: Vec<(u64, T)>)
        requires
            old(self).wf(),
        ensures
            final(self).wf(),
            r@ == old(self)@,
            final(self)@ == Seq::<(u64, T)>::empty(),
    {
        let mut taken: Vec<(u64, T)> = Vec::new();
        std::mem::swap(&mut taken, &mut self.tasks);
        assert(ids_of(self@) =~= Seq::<u64>::empty());
        taken
    }
}

impl<T> Default for TaskList<T> {
    fn default() -> (r: Self)
        ensures
            r.wf(),
            r@ == Seq::<(u64, T)>::empty(),
    {
        TaskList::new()
    }
}

} // verus!
