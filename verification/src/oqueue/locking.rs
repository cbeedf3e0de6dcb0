//! Locking oqueues: the state that sits behind one lock per queue, and the handles through which
//! senders, receivers and observers use it. The lock itself, and the blocking of tasks until a
//! handle may succeed, belong to whoever shares the queue between threads.

use vstd::prelude::*;
use crate::oqueue::cursor::Cursor;
use crate::oqueue::error::OQueueAttachError;
use crate::oqueue::error::slots_exhausted_message;
use crate::oqueue::error::slots_exhausted_text;
use crate::oqueue::table::QueueState;
use crate::oqueue::table::QueueTable;

verus! {

/// The name reported for the plain locking oqueue in attachment errors.
pub open spec fn locking_queue_name() -> Seq<char> {
    "orpc::oqueue::locking::LockingQueue"@
}

/// The name reported for the observable locking oqueue in attachment errors.
pub open spec fn observable_queue_name() -> Seq<char> {
    "orpc::oqueue::locking::ObservableLockingQueue"@
}

fn locking_queue_type() -> (r: String)
    ensures
        r@ == locking_queue_name(),
{
    let name = "orpc::oqueue::locking::LockingQueue";
    proof {
        reveal_strlit("orpc::oqueue::locking::LockingQueue");
    }
    name.to_owned()
}

fn observable_queue_type() -> (r: String)
    ensures
        r@ == observable_queue_name(),
{
    let name = "orpc::oqueue::locking::ObservableLockingQueue";
    proof {
        reveal_strlit("orpc::oqueue::locking::ObservableLockingQueue");
    }
    name.to_owned()
}

/// An oqueue which supports values that are only moved. It supports an unlimited number of senders
/// and receivers, and no observers (weak or strong). Receivers move values out of the buffer.
pub struct LockingQueue<T> {
    inner: QueueTable<T>,
    buffer_size: usize,
}

/// An oqueue whose values are cloned out, which supports strong and weak observation besides an
/// unlimited number of senders and receivers.
pub struct ObservableLockingQueue<T> {
    inner: LockingQueue<T>,
}

/// A sender handle: it allows putting values into a queue.
pub struct LockingSender {
    _private: (),
}

/// A receiver of a [`LockingQueue`]: it moves values out of the queue.
pub struct LockingReceiver {
    _private: (),
}

/// A receiver of an [`ObservableLockingQueue`]: it clones values out of the queue so that they stay
/// available to observers.
pub struct CloningLockingReceiver {
    _private: (),
}

/// A strong observer of an [`ObservableLockingQueue`], holding one strong-observer slot.
pub struct LockingStrongObserver {
    index: usize,
}

/// A weak observer of an [`ObservableLockingQueue`]. It remembers the largest tail it has seen, to
/// tell whether there is unobserved data.
pub struct LockingWeakObserver {
    max_observed_tail: usize,
}

impl LockingStrongObserver {
    /// The strong-observer slot that this observer holds.
    pub closed spec fn slot(&self) -> int {
        self.index as int
    }
}

impl LockingWeakObserver {
    /// The largest tail this observer has seen.
    pub closed spec fn max_observed(&self) -> int {
        self.max_observed_tail as int
    }
}

impl<T> View for LockingQueue<T> {
    type V = QueueState<T>;

    closed spec fn view(&self) -> QueueState<T> {
        self.inner@
    }
}

impl<T> View for ObservableLockingQueue<T> {
    type V = QueueState<T>;

    closed spec fn view(&self) -> QueueState<T> {
        self.inner@
    }
}

/// The view of a queue that nothing has been sent to, with no receivers and `observers` free
/// strong-observer slots, the last of which is handed out first.
pub open spec fn fresh_state<T>(buffer_size: nat, observers: nat) -> QueueState<T> {
    QueueState {
        history: Seq::empty(),
        capacity: buffer_size,
        receivers: 0,
        head: usize::MAX as int,
        observers: Seq::new(observers, |k: int| None::<int>),
        free: Seq::new(observers, |k: int| k as usize),
    }
}

impl<T> LockingQueue<T> {
    /// The queue's state is consistent: it has no strong-observer slots, since values are moved
    /// out to receivers.
    pub closed spec fn wf(&self) -> bool {
        &&& self.table_wf()
        &&& self.inner@.observers.len() == 0
    }

    /// The table behind the queue is consistent and the queue knows its buffer size.
    closed spec fn table_wf(&self) -> bool {
        &&& self.inner.wf()
        &&& self.buffer_size == self.inner@.capacity
    }

    /// Create a new oqueue with a given size. A receiver attached to it holds at most
    /// `buffer_size - 1` values.
    pub fn new(buffer_size: usize) -> (r: Self)
        requires
            buffer_size > 0,
        ensures
            r.wf(),
            r@.history == Seq::<T>::empty(),
            r@.capacity == buffer_size,
            r@.receivers == 0,
            r@.observers == Seq::<Option<int>>::empty(),
            r@.free == Seq::<usize>::empty(),
    {
        let r = Self::new_with_observers(buffer_size, 0);
        assert(r@.observers =~= Seq::<Option<int>>::empty());
        assert(r@.free =~= Seq::<usize>::empty());
        r
    }

    fn new_with_observers(buffer_size: usize, max_strong_observers: usize) -> (r: Self)
        requires
            buffer_size > 0,
        ensures
            r.table_wf(),
            r.inner.all_stored(),
            r@.history == Seq::<T>::empty(),
            r@.head == usize::MAX as int,
            r@.capacity == buffer_size,
            r@.receivers == 0,
            r@.observers == Seq::new(max_strong_observers as nat, |k: int| None::<int>),
            r@.free == Seq::new(max_strong_observers as nat, |k: int| k as usize),
    {
        LockingQueue {
            buffer_size,
            inner: QueueTable::new_with_observers(buffer_size, max_strong_observers),
        }
    }

    /// The facts that every consistent queue keeps.
    pub proof fn lemma_valid(&self)
        requires
            self.wf(),
        ensures
            self@.valid(),
    {
        self.inner.lemma_wf_valid();
    }

    /// The row the next send writes: the number of values sent so far.
    pub fn tail(&self) -> (r: usize)
        requires
            self.wf(),
        ensures
            r == self@.tail(),
    {
        self.inner.tail()
    }

    /// The number of attached receivers.
    pub fn receivers(&self) -> (r: usize)
        requires
            self.wf(),
        ensures
            r == self@.receivers,
    {
        self.inner.receivers()
    }

    /// Attach as a sender. Senders are always supported.
    pub fn attach_sender(&self) -> (r: Result<LockingSender, OQueueAttachError>)
        ensures
            r is Ok,
    {
        Ok(LockingSender { _private: () })
    }

    /// Attach as a receiver. The first receiver starts at the tail.
    pub fn attach_receiver(&mut self) -> (r: Result<LockingReceiver, OQueueAttachError>)
        requires
            old(self).wf(),
            old(self)@.receivers < usize::MAX,
        ensures
            final(self).wf(),
            r is Ok,
            final(self)@ == old(self)@.receiver_attached(),
    {
        self.inner.attach_receiver();
        Ok(LockingReceiver { _private: () })
    }

    /// Strong observers are not supported: this always fails with `Unsupported`.
    pub fn attach_strong_observer(&self) -> (r: Result<LockingStrongObserver, OQueueAttachError>)
        ensures
            r matches Err(OQueueAttachError::Unsupported { table_type }) && table_type@
                == locking_queue_name(),
    {
        Err(OQueueAttachError::Unsupported { table_type: locking_queue_type() })
    }

    /// Weak observers are not supported: this always fails with `Unsupported`.
    pub fn attach_weak_observer(&self) -> (r: Result<LockingWeakObserver, OQueueAttachError>)
        ensures
            r matches Err(OQueueAttachError::Unsupported { table_type }) && table_type@
                == locking_queue_name(),
    {
        Err(OQueueAttachError::Unsupported { table_type: locking_queue_type() })
    }

    /// Send a value if there is space, otherwise return it to the caller. `None` means that the
    /// value was put into the queue.
    pub fn try_send(&mut self, sender: &LockingSender, data: T) -> (r: Option<T>)
        requires
            old(self).wf(),
            old(self)@.tail() + 1 < usize::MAX,
        ensures
            final(self).wf(),
            old(self)@.send_blocked() ==> r == Some(data) && final(self)@ == old(self)@,
            !old(self)@.send_blocked() ==> r is None && final(self)@ == old(self)@.sent(data),
    {
        self.inner.try_send(data)
    }

    /// Whether a send may succeed now (what a blocked sender waits for).
    pub fn can_send(&self, sender: &LockingSender) -> (r: bool)
        requires
            self.wf(),
        ensures
            r == !self@.send_blocked(),
    {
        self.inner.can_send().is_some()
    }

    /// Move the oldest value that no receiver has taken out of the queue, if there is one. Each
    /// value is received exactly once, by exactly one receiver.
    pub fn try_receive(&mut self, receiver: &LockingReceiver) -> (r: Option<T>)
        requires
            old(self).wf(),
            old(self)@.receivers > 0,
        ensures
            final(self).wf(),
            old(self)@.head == old(self)@.tail() ==> r is None && final(self)@ == old(self)@,
            old(self)@.head < old(self)@.tail() ==> r == Some(old(self)@.history[old(self)@.head])
                && final(self)@ == old(self)@.head_advanced(),
    {
        proof {
            self.inner.lemma_wf_valid();
        }
        self.inner.try_receive()
    }

    /// Whether a receive may succeed now (what a blocked receiver waits for).
    pub fn can_receive(&self, receiver: &LockingReceiver) -> (r: bool)
        requires
            self.wf(),
        ensures
            r == (self@.head != self@.tail()),
    {
        self.inner.can_receive()
    }

    /// Detach a receiver. When the last one leaves, nothing is kept for receivers any more.
    pub fn drop_receiver(&mut self, receiver: LockingReceiver)
        requires
            old(self).wf(),
            old(self)@.receivers > 0,
        ensures
            final(self).wf(),
            final(self)@ == old(self)@.receiver_detached(),
    {
        self.inner.drop_receiver();
    }
}

impl<T> ObservableLockingQueue<T> {
    /// The queue's state is consistent, and every row the buffer can hold is still in it.
    pub closed spec fn wf(&self) -> bool {
        &&& self.inner.table_wf()
        &&& self.inner.inner.all_stored()
    }

    /// Create a new oqueue (with observer support) with the given buffer size and number of
    /// strong-observer slots.
    pub fn new(buffer_size: usize, max_strong_observers: usize) -> (r: Self)
        requires
            buffer_size > 0,
        ensures
            r.wf(),
            r@ == fresh_state::<T>(buffer_size as nat, max_strong_observers as nat),
    {
        let inner = LockingQueue::new_with_observers(buffer_size, max_strong_observers);
        proof {
            inner.inner.lemma_wf_valid();
        }
        let r = ObservableLockingQueue { inner };
        assert(r@.receivers == 0);
        assert(r@.head == usize::MAX as int);
        r
    }

    /// The facts that every consistent queue keeps.
    pub proof fn lemma_valid(&self)
        requires
            self.wf(),
        ensures
            self@.valid(),
    {
        self.inner.inner.lemma_wf_valid();
    }

    /// The row the next send writes: the number of values sent so far.
    pub fn tail(&self) -> (r: usize)
        requires
            self.wf(),
        ensures
            r == self@.tail(),
    {
        self.inner.inner.tail()
    }

    /// The number of attached receivers.
    pub fn receivers(&self) -> (r: usize)
        requires
            self.wf(),
        ensures
            r == self@.receivers,
    {
        self.inner.inner.receivers()
    }

    /// Attach as a sender. Senders are always supported.
    pub fn attach_sender(&self) -> (r: Result<LockingSender, OQueueAttachError>)
        ensures
            r is Ok,
    {
        self.inner.attach_sender()
    }

    /// Attach as a receiver. The first receiver starts at the tail.
    pub fn attach_receiver(&mut self) -> (r: Result<CloningLockingReceiver, OQueueAttachError>)
        requires
            old(self).wf(),
            old(self)@.receivers < usize::MAX,
        ensures
            final(self).wf(),
            r is Ok,
            final(self)@ == old(self)@.receiver_attached(),
    {
        self.inner.inner.attach_receiver();
        Ok(CloningLockingReceiver { _private: () })
    }

    /// Attach as a strong observer, starting at the tail. This takes the last free
    /// strong-observer slot, and fails with `AllocationFailed` when none is free.
    pub fn attach_strong_observer(&mut self) -> (r: Result<LockingStrongObserver, OQueueAttachError>)
        requires
            old(self).wf(),
        ensures
            final(self).wf(),
            old(self)@.free.len() == 0 ==> final(self)@ == old(self)@,
            old(self)@.free.len() == 0 ==> (r matches Err(
                OQueueAttachError::AllocationFailed { table_type, message },
            ) && table_type@ == observable_queue_name() && message@ == slots_exhausted_text(
                old(self)@.observers.len(),
            )),
            old(self)@.free.len() > 0 ==> (r matches Ok(o) && o.slot() == old(self)@.free.last()),
            old(self)@.free.len() > 0 ==> final(self)@ == old(self)@.observer_slot_taken(),
    {
        let n_slots = self.inner.inner.observer_slots();
        match self.inner.inner.attach_observer_slot() {
            None => Err(
                OQueueAttachError::AllocationFailed {
                    table_type: observable_queue_type(),
                    message: slots_exhausted_message(n_slots),
                },
            ),
            Some(index) => Ok(LockingStrongObserver { index }),
        }
    }

    /// Attach as a weak observer. Weak observers are always supported and never block senders.
    pub fn attach_weak_observer(&self) -> (r: Result<LockingWeakObserver, OQueueAttachError>)
        ensures
            r matches Ok(o) && o.max_observed() == 0,
    {
        Ok(LockingWeakObserver { max_observed_tail: 0 })
    }

    /// Send a value if there is space, otherwise return it to the caller. `None` means that the
    /// value was put into the queue.
    pub fn try_send(&mut self, sender: &LockingSender, data: T) -> (r: Option<T>)
        requires
            old(self).wf(),
            old(self)@.tail() + 1 < usize::MAX,
        ensures
            final(self).wf(),
            old(self)@.send_blocked() ==> r == Some(data) && final(self)@ == old(self)@,
            !old(self)@.send_blocked() ==> r is None && final(self)@ == old(self)@.sent(data),
    {
        self.inner.inner.try_send(data)
    }

    /// Whether a send may succeed now (what a blocked sender waits for).
    pub fn can_send(&self, sender: &LockingSender) -> (r: bool)
        requires
            self.wf(),
        ensures
            r == !self@.send_blocked(),
    {
        self.inner.inner.can_send().is_some()
    }

    /// Clone the oldest value that no receiver has taken yet, if there is one, and move the
    /// receivers' head past it. The value stays available to observers.
    pub fn try_receive(&mut self, receiver: &CloningLockingReceiver) -> (r: Option<T>)
        where
            T: Clone,
        requires
            old(self).wf(),
            old(self)@.receivers > 0,
        ensures
            final(self).wf(),
            old(self)@.head == old(self)@.tail() ==> r is None && final(self)@ == old(self)@,
            old(self)@.head < old(self)@.tail() ==> r is Some && cloned(
                old(self)@.history[old(self)@.head],
                r->0,
            ) && final(self)@ == old(self)@.head_advanced(),
    {
        proof {
            self.inner.inner.lemma_wf_valid();
        }
        self.inner.inner.try_receive_clone()
    }

    /// Whether a receive may succeed now (what a blocked receiver waits for).
    pub fn can_receive(&self, receiver: &CloningLockingReceiver) -> (r: bool)
        requires
            self.wf(),
        ensures
            r == (self@.head != self@.tail()),
    {
        self.inner.inner.can_receive()
    }

    /// Detach a receiver. When the last one leaves, nothing is kept for receivers any more.
    pub fn drop_receiver(&mut self, receiver: CloningLockingReceiver)
        requires
            old(self).wf(),
            old(self)@.receivers > 0,
        ensures
            final(self).wf(),
            final(self)@ == old(self)@.receiver_detached(),
    {
        self.inner.inner.drop_receiver();
    }

    /// Clone the next value for this strong observer, if it has been sent, and move the
    /// observer's head past it. Every strong observer sees every value sent after it attached,
    /// exactly once.
    pub fn try_strong_observe(&mut self, observer: &LockingStrongObserver) -> (r: Option<T>)
        where
            T: Clone,
        requires
            old(self).wf(),
            old(self)@.observer_attached(observer.slot()),
        ensures
            final(self).wf(),
            old(self)@.observers[observer.slot()]->0 == old(self)@.tail() ==> r is None
                && final(self)@ == old(self)@,
            old(self)@.observers[observer.slot()]->0 < old(self)@.tail() ==> r is Some && cloned(
                old(self)@.history[old(self)@.observers[observer.slot()]->0],
                r->0,
            ) && final(self)@ == old(self)@.observer_advanced(observer.slot()),
    {
        proof {
            self.inner.inner.lemma_wf_valid();
        }
        self.inner.inner.try_strong_observe(observer.index)
    }

    /// Whether a strong observation may succeed now.
    pub fn can_strong_observe(&self, observer: &LockingStrongObserver) -> (r: bool)
        requires
            self.wf(),
            self@.observer_attached(observer.slot()),
        ensures
            r == (self@.observers[observer.slot()]->0 != self@.tail()),
    {
        self.inner.inner.can_strong_observe(observer.index)
    }

    /// Detach a strong observer: its slot is freed, so that it no longer holds senders back, and
    /// becomes available again.
    pub fn drop_strong_observer(&mut self, observer: LockingStrongObserver)
        requires
            old(self).wf(),
            old(self)@.observer_attached(observer.slot()),
        ensures
            final(self).wf(),
            final(self)@ == old(self)@.observer_slot_released(observer.slot() as usize),
    {
        self.inner.inner.release_observer_slot(observer.index);
    }

    /// Observe the value at the given row of the full history. This returns `None` when the row
    /// has not been sent yet or has already been overwritten, and otherwise that row's value.
    pub fn weak_observe(&self, observer: &mut LockingWeakObserver, cursor: Cursor) -> (r: Option<T>)
        where
            T: Clone,
        requires
            self.wf(),
        ensures
            r is Some <==> self@.in_window(cursor.0 as int),
            r is Some ==> cloned(self@.history[cursor.0 as int], r->0),
            final(observer).max_observed() == if old(observer).max_observed() < self@.tail() {
                self@.tail()
            } else {
                old(observer).max_observed()
            },
    {
        let tail = self.inner.inner.tail();
        if tail > observer.max_observed_tail {
            observer.max_observed_tail = tail;
        }
        self.inner.inner.try_weak_observe(cursor.index())
    }

    /// Whether there is data that this weak observer has not seen the tail of.
    pub fn weak_should_try(&self, observer: &LockingWeakObserver) -> (r: bool)
        requires
            self.wf(),
        ensures
            r == (self@.tail() > observer.max_observed()),
    {
        self.inner.inner.tail() > observer.max_observed_tail
    }

    /// A cursor pointing to the most recent value in the oqueue (row 0 when nothing was sent).
    pub fn recent_cursor(&self, observer: &LockingWeakObserver) -> (r: Cursor)
        requires
            self.wf(),
        ensures
            r.0 == if self@.tail() == 0 {
                0
            } else {
                self@.tail() - 1
            },
    {
        let tail = self.inner.inner.tail();
        if tail == 0 {
            Cursor(0)
        } else {
            Cursor(tail - 1)
        }
    }

    /// A cursor pointing to the oldest value still in the oqueue: the most recent one minus the
    /// buffer size plus one, or row 0 while the buffer has not filled.
    pub fn oldest_cursor(&self, observer: &LockingWeakObserver) -> (r: Cursor)
        requires
            self.wf(),
        ensures
            r.0 == if self@.tail() == 0 {
                0
            } else {
                self@.oldest()
            },
    {
        proof {
            self.inner.inner.lemma_wf_valid();
        }
        let Cursor(i) = self.recent_cursor(observer);
        let buffer_size = self.inner.buffer_size;
        if i < buffer_size {
            Cursor(0)
        } else {
            Cursor(i - (buffer_size - 1))
        }
    }

    /// All values still available in the rows `[start, end)`, oldest first. Rows that were
    /// overwritten or not sent yet are skipped.
    pub fn weak_observe_range(
        &self,
        observer: &mut LockingWeakObserver,
        start: Cursor,
        end: Cursor,
    ) -> (r: Vec<T>)
        where
            T: Clone,
        requires
            self.wf(),
        ensures
            r@.len() == self@.range_len(start.0 as int, end.0 as int),
            forall|j: int|
                0 <= j < r@.len() ==> cloned(
                    self@.history[self@.range_lo(start.0 as int) + j],
                    #[trigger] r@[j],
                ),
            final(observer).max_observed() == if start.0 < end.0 && old(observer).max_observed()
                < self@.tail() {
                self@.tail()
            } else {
                old(observer).max_observed()
            },
    {
        proof {
            self.lemma_valid();
        }
        let ghost q = self@;
        let ghost lo = q.range_lo(start.0 as int);
        let mut res: Vec<T> = Vec::new();
        let mut i = start.index();
        while i < end.index()
            invariant
                self.wf(),
                q == self@,
                lo == q.range_lo(start.0 as int),
                start.0 <= i,
                i <= end.0 || i == start.0,
                res@.len() == q.range_len(start.0 as int, i as int),
                forall|j: int| 0 <= j < res@.len() ==> cloned(q.history[lo + j], #[trigger] res@[j]),
                observer.max_observed() == if start.0 < i && old(observer).max_observed()
                    < q.tail() {
                    q.tail()
                } else {
                    old(observer).max_observed()
                },
            decreases end.0 - i,
        {
            let seen = self.weak_observe(observer, Cursor(i));
            match seen {
                Some(v) => {
                    assert(q.in_window(i as int));
                    assert(lo + res@.len() == i);
                    res.push(v);
                },
                None => {},
            }
            i = i + 1;
        }
        res
    }

    /// The most recent `n` values in the oqueue, oldest first. Values that were already overwritten
    /// are missing.
    pub fn weak_observe_recent(&self, observer: &mut LockingWeakObserver, n: usize) -> (r: Vec<T>)
        where
            T: Clone,
        requires
            self.wf(),
        ensures
            r@.len() == self@.range_len(self@.tail() - n, self@.tail()),
            forall|j: int|
                0 <= j < r@.len() ==> cloned(
                    self@.history[self@.range_lo(self@.tail() - n) + j],
                    #[trigger] r@[j],
                ),
    {
        proof {
            self.lemma_valid();
        }
        let now = self.recent_cursor(observer);
        let end = now + 1;
        let start = end - n;
        let r = self.weak_observe_range(observer, start, end);
        proof {
            let q = self@;
            if q.tail() > 0 {
                assert(end.0 == q.tail());
                assert(q.range_lo(start.0 as int) == q.range_lo(q.tail() - n));
            } else {
                assert(q.range_len(start.0 as int, end.0 as int) == 0);
            }
        }
        r
    }
}

} // verus!
