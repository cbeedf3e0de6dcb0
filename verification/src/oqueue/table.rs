//! The state that a locking oqueue keeps under its lock: a ring buffer of `capacity` slots, the
//! head shared by all receivers, one head per strong observer, and the tail where senders write.

use vstd::prelude::*;
use crate::oqueue::ring::lemma_close_rows_distinct_slots;
use crate::oqueue::ring::lemma_next_row_meets;

verus! {

/// The value of a head (of the receivers, or of a strong-observer slot) that is not in use.
pub const FREE_HEAD: usize = usize::MAX;

/// What an oqueue holds, as a mathematical value.
///
/// Row `i` of the queue is the `i`-th value ever sent; `history` holds all of them, so the tail
/// (the row the next send writes) is `history.len()`.
pub struct QueueState<T> {
    /// Every value sent so far, oldest first.
    pub history: Seq<T>,
    /// The number of slots of the ring buffer.
    pub capacity: nat,
    /// The number of attached receivers.
    pub receivers: nat,
    /// The next row that a receiver takes (meaningful while `receivers > 0`).
    pub head: int,
    /// For each strong-observer slot, the next row that its observer sees, or `None` when the slot
    /// is free.
    pub observers: Seq<Option<int>>,
    /// The free strong-observer slots; an attach takes the last one.
    pub free: Seq<usize>,
}

impl<T> QueueState<T> {
    /// The row the next send writes.
    pub open spec fn tail(self) -> int {
        self.history.len() as int
    }

    /// The rows sent but not yet taken by a receiver.
    pub open spec fn pending(self) -> Seq<T> {
        self.history.subrange(self.head, self.tail())
    }

    /// The receivers hold a full buffer: `capacity - 1` rows wait for them.
    pub open spec fn blocked_by_receivers(self) -> bool {
        self.receivers > 0 && self.tail() - self.head == self.capacity - 1
    }

    /// The strong observer in slot `k` has `capacity - 1` rows left to observe.
    pub open spec fn blocked_by_observer(self, k: int) -> bool {
        match self.observers[k] {
            Some(h) => self.tail() - h == self.capacity - 1,
            None => false,
        }
    }

    /// A send has no room: some receiver or strong observer would lose a row it has not seen.
    pub open spec fn send_blocked(self) -> bool {
        ||| self.blocked_by_receivers()
        ||| exists|k: int| 0 <= k < self.observers.len() && #[trigger] self.blocked_by_observer(k)
    }

    /// The oldest row still in the ring buffer.
    pub open spec fn oldest(self) -> int {
        if self.tail() <= self.capacity {
            0
        } else {
            self.tail() - self.capacity
        }
    }

    /// Row `i` is still held by the ring buffer.
    pub open spec fn in_window(self, i: int) -> bool {
        self.oldest() <= i < self.tail()
    }

    /// The first row at or after `start` that the buffer still holds.
    pub open spec fn range_lo(self, start: int) -> int {
        if start < self.oldest() {
            self.oldest()
        } else {
            start
        }
    }

    /// The number of rows in `[start, end)` that the buffer still holds; they are consecutive,
    /// from `range_lo(start)` on.
    pub open spec fn range_len(self, start: int, end: int) -> int {
        let hi = if end < self.tail() {
            end
        } else {
            self.tail()
        };
        if hi > self.range_lo(start) {
            hi - self.range_lo(start)
        } else {
            0
        }
    }

    /// Slot `k` holds an attached strong observer.
    pub open spec fn observer_attached(self, k: int) -> bool {
        0 <= k < self.observers.len() && self.observers[k] is Some
    }

    /// The state after a successful send of `v`.
    pub open spec fn sent(self, v: T) -> Self {
        QueueState { history: self.history.push(v), ..self }
    }

    /// The state after a receiver took the row at the head.
    pub open spec fn head_advanced(self) -> Self {
        QueueState { head: self.head + 1, ..self }
    }

    /// The state after the strong observer in slot `k` observed its next row.
    pub open spec fn observer_advanced(self, k: int) -> Self {
        QueueState {
            observers: self.observers.update(k, Some(self.observers[k]->0 + 1)),
            ..self
        }
    }

    /// The state after one more receiver attached: the first one starts at the tail.
    pub open spec fn receiver_attached(self) -> Self {
        QueueState {
            receivers: self.receivers + 1,
            head: if self.receivers == 0 { self.tail() } else { self.head },
            ..self
        }
    }

    /// The state after one receiver detached: the head is freed with the last one.
    pub open spec fn receiver_detached(self) -> Self {
        QueueState {
            receivers: (self.receivers - 1) as nat,
            head: if self.receivers == 1 { FREE_HEAD as int } else { self.head },
            ..self
        }
    }

    /// The state after a strong observer attached to the last free slot, starting at the tail.
    pub open spec fn observer_slot_taken(self) -> Self {
        QueueState {
            observers: self.observers.update(self.free.last() as int, Some(self.tail())),
            free: self.free.drop_last(),
            ..self
        }
    }

    /// The state after the strong observer in slot `k` detached.
    pub open spec fn observer_slot_released(self, k: usize) -> Self {
        QueueState {
            observers: self.observers.update(k as int, None),
            free: self.free.push(k),
            ..self
        }
    }

    /// The invariant that every well-formed queue keeps.
    pub open spec fn valid(self) -> bool {
        &&& self.capacity > 0
        &&& self.tail() < usize::MAX
        &&& self.receivers > 0 ==> 0 <= self.head <= self.tail() && self.tail() - self.head
            < self.capacity
        &&& forall|k: int|
            0 <= k < self.observers.len() && (#[trigger] self.observers[k]) is Some ==> 0
                <= self.observers[k]->0 <= self.tail() && self.tail() - self.observers[k]->0
                < self.capacity
        &&& forall|j: int| 0 <= j < self.free.len() ==> #[trigger] self.free[j] < self.observers.len()
            && self.observers[self.free[j] as int] is None
        &&& forall|k: int|
            0 <= k < self.observers.len() && (#[trigger] self.observers[k]) is None
                ==> self.free.contains(k as usize)
        &&& self.free.no_duplicates()
        &&& self.observers.len() <= usize::MAX
    }

    /// The strong-observer slots that hold an attached observer.
    pub open spec fn attached_slots(self) -> Set<int> {
        Set::new(|k: int| 0 <= k < self.observers.len() && self.observers[k] is Some)
    }
}

/// The lock-protected state of a locking oqueue.
pub struct QueueTable<T> {
    /// The ring buffer; row `i` lives in slot `i % buffer.len()`.
    buffer: Vec<Option<T>>,
    /// The number of attached receivers.
    n_receivers: usize,
    /// The row from which the next element is taken by receivers.
    head_index: usize,
    /// The row of the next element to write.
    tail_index: usize,
    /// The heads used by strong observers.
    strong_observer_heads: Vec<usize>,
    /// The strong-observer heads that are available to be allocated to an attacher.
    free_strong_observer_heads: Vec<usize>,
    /// Every value sent so far.
    history: Ghost<Seq<T>>,
}

impl<T> View for QueueTable<T> {
    type V = QueueState<T>;

    closed spec fn view(&self) -> QueueState<T> {
        QueueState {
            history: self.history@,
            capacity: self.buffer@.len(),
            receivers: self.n_receivers as nat,
            head: self.head_index as int,
            observers: self.strong_observer_heads@.map_values(
                |h: usize|
                    if h == FREE_HEAD {
                        None
                    } else {
                        Some(h as int)
                    },
            ),
            free: self.free_strong_observer_heads@,
        }
    }
}

impl<T> QueueTable<T> {
    spec fn cap(&self) -> int {
        self.buffer@.len() as int
    }

    spec fn window_lo(&self) -> int {
        if self.tail_index <= self.cap() {
            0
        } else {
            self.tail_index - self.cap()
        }
    }

    /// The slot of row `i` holds nothing or row `i`'s value.
    spec fn row_consistent(&self, i: int) -> bool {
        self.buffer@[i % self.cap()] matches Some(x) ==> x == self.history@[i]
    }

    /// The slot of row `i` holds row `i`'s value.
    spec fn stored(&self, i: int) -> bool {
        self.buffer@[i % self.cap()] == Some(self.history@[i])
    }

    /// The strong observer in slot `k` has yet to observe row `i`.
    spec fn observer_pins(&self, k: int, i: int) -> bool {
        &&& 0 <= k < self.strong_observer_heads@.len()
        &&& self.strong_observer_heads@[k] != FREE_HEAD
        &&& self.strong_observer_heads@[k] <= i < self.tail_index
    }

    /// The well-formedness of the table: the view is valid and the ring buffer holds what the
    /// receivers and strong observers have yet to read.
    pub closed spec fn wf(&self) -> bool {
        &&& self.buffer@.len() > 0
        &&& self.tail_index < usize::MAX
        &&& self.history@.len() == self.tail_index
        &&& self.n_receivers == 0 ==> self.head_index == FREE_HEAD
        &&& self.n_receivers > 0 ==> self.head_index <= self.tail_index && self.tail_index
            - self.head_index < self.cap()
        &&& forall|k: int|
            0 <= k < self.strong_observer_heads@.len() ==> (#[trigger] self.strong_observer_heads@[k]
                == FREE_HEAD || (self.strong_observer_heads@[k] <= self.tail_index
                && self.tail_index - self.strong_observer_heads@[k] < self.cap()))
        &&& forall|j: int|
            0 <= j < self.free_strong_observer_heads@.len() ==> (#[trigger] self.free_strong_observer_heads@[j])
                < self.strong_observer_heads@.len()
                && self.strong_observer_heads@[self.free_strong_observer_heads@[j] as int]
                == FREE_HEAD
        &&& forall|j1: int, j2: int|
            0 <= j1 < j2 < self.free_strong_observer_heads@.len() ==> self.free_strong_observer_heads@[j1]
                != self.free_strong_observer_heads@[j2]
        &&& forall|k: int|
            0 <= k < self.strong_observer_heads@.len() && #[trigger] self.strong_observer_heads@[k]
                == FREE_HEAD ==> self.free_strong_observer_heads@.contains(k as usize)
        &&& forall|i: int| self.window_lo() <= i < self.tail_index ==> #[trigger] self.row_consistent(i)
        &&& self.n_receivers > 0 ==> forall|i: int|
            self.head_index <= i < self.tail_index ==> #[trigger] self.stored(i)
        &&& forall|k: int, i: int| #[trigger] self.observer_pins(k, i) ==> self.stored(i)
    }

    /// Every row that the ring buffer can still hold is stored: nothing has been moved out.
    pub closed spec fn all_stored(&self) -> bool {
        forall|i: int| self.window_lo() <= i < self.tail_index ==> #[trigger] self.stored(i)
    }

    /// Row `i` is still in the buffer's window, but a moving receive took its value out.
    pub closed spec fn moved_out(&self, i: int) -> bool {
        &&& self.window_lo() <= i < self.tail_index
        &&& self.buffer@[i % self.cap()] is None
    }

    /// What a weak observation of row `i` finds: `None` outside the window or when the row was
    /// moved out, else the stored value.
    pub closed spec fn row_at(&self, i: int) -> Option<T> {
        if self.window_lo() <= i < self.tail_index {
            self.buffer@[i % self.cap()]
        } else {
            None
        }
    }

    proof fn lemma_view_valid(&self)
        requires
            self.wf(),
        ensures
            self@.valid(),
            self@.capacity == self.buffer@.len(),
            self@.tail() == self.tail_index,
            self@.head == self.head_index,
            self@.oldest() == self.window_lo(),
    {
        let v = self@;
        assert forall|k: int|
            0 <= k < v.observers.len() && (#[trigger] v.observers[k]) is Some implies 0
                <= v.observers[k]->0 <= v.tail() && v.tail() - v.observers[k]->0 < v.capacity by {
            assert(self.strong_observer_heads@[k] != FREE_HEAD);
        }
        assert forall|j: int| 0 <= j < v.free.len() implies #[trigger] v.free[j] < v.observers.len()
            && v.observers[v.free[j] as int] is None by {
            assert(self.strong_observer_heads@[self.free_strong_observer_heads@[j] as int]
                == FREE_HEAD);
        }
        assert forall|k: int|
            0 <= k < v.observers.len() && (#[trigger] v.observers[k]) is None implies v.free.contains(
            k as usize,
        ) by {
            assert(self.strong_observer_heads@[k] == FREE_HEAD);
        }
        assert(v.free.no_duplicates());
        assert(self.strong_observer_heads@.len() == self.strong_observer_heads.len());
    }

    /// The facts about a table that its view exposes.
    pub proof fn lemma_wf_valid(&self)
        requires
            self.wf(),
        ensures
            self@.valid(),
    {
        self.lemma_view_valid();
    }

    /// Two tables with the same buffer, history and tail hold the same rows: each row is
    /// consistent, or stored, in one exactly when it is in the other.
    proof fn lemma_same_rows(pre: Self, post: Self)
        requires
            post.buffer@ == pre.buffer@,
            post.history@ == pre.history@,
            post.tail_index == pre.tail_index,
        ensures
            post.window_lo() == pre.window_lo(),
            forall|i: int| #[trigger] post.stored(i) == pre.stored(i),
            forall|i: int| #[trigger] post.row_consistent(i) == pre.row_consistent(i),
            pre.all_stored() ==> post.all_stored(),
    {
        if pre.all_stored() {
            assert forall|i: int| post.window_lo() <= i < post.tail_index implies #[trigger]
                post.stored(i) by {
                assert(pre.stored(i));
            }
        }
    }

    /// Setting one strong-observer head to `h`, which is free or in the window, keeps every head
    /// free or in the window.
    proof fn lemma_head_set_in_window(pre: Self, post: Self, k: int, h: usize)
        requires
            0 <= k < pre.strong_observer_heads@.len(),
            post.strong_observer_heads@ == pre.strong_observer_heads@.update(k, h),
            post.tail_index == pre.tail_index,
            post.cap() == pre.cap(),
            h == FREE_HEAD || (h <= pre.tail_index && pre.tail_index - h < pre.cap()),
            forall|k2: int|
                0 <= k2 < pre.strong_observer_heads@.len() ==> (#[trigger] pre.strong_observer_heads@[k2]
                    == FREE_HEAD || (pre.strong_observer_heads@[k2] <= pre.tail_index
                    && pre.tail_index - pre.strong_observer_heads@[k2] < pre.cap())),
        ensures
            forall|k2: int|
                0 <= k2 < post.strong_observer_heads@.len() ==> (#[trigger] post.strong_observer_heads@[k2]
                    == FREE_HEAD || (post.strong_observer_heads@[k2] <= post.tail_index
                    && post.tail_index - post.strong_observer_heads@[k2] < post.cap())),
    {
        assert forall|k2: int| 0 <= k2 < post.strong_observer_heads@.len() implies (
        #[trigger] post.strong_observer_heads@[k2] == FREE_HEAD || (post.strong_observer_heads@[k2]
            <= post.tail_index && post.tail_index - post.strong_observer_heads@[k2] < post.cap())) by {
            if k2 != k {
                assert(pre.strong_observer_heads@[k2] == post.strong_observer_heads@[k2]);
            }
        }
    }

    /// Create an empty table with `buffer_size` slots and `max_strong_observers` free
    /// strong-observer slots.
    pub fn new_with_observers(buffer_size: usize, max_strong_observers: usize) -> (r: Self)
        requires
            buffer_size > 0,
        ensures
            r.wf(),
            r.all_stored(),
            r@.history == Seq::<T>::empty(),
            r@.capacity == buffer_size,
            r@.receivers == 0,
            r@.head == FREE_HEAD as int,
            r@.observers == Seq::new(max_strong_observers as nat, |k: int| None::<int>),
            r@.free == Seq::new(max_strong_observers as nat, |k: int| k as usize),
    {
        let mut buffer: Vec<Option<T>> = Vec::new();
        let mut i: usize = 0;
        while i < buffer_size
            invariant
                i <= buffer_size,
                buffer@.len() == i,
                forall|j: int| 0 <= j < i ==> buffer@[j] is None,
            decreases buffer_size - i,
        {
            buffer.push(None);
            i = i + 1;
        }
        let mut free: Vec<usize> = Vec::new();
        let mut heads: Vec<usize> = Vec::new();
        let mut k: usize = 0;
        while k < max_strong_observers
            invariant
                k <= max_strong_observers,
                free@.len() == k,
                heads@.len() == k,
                forall|j: int| 0 <= j < k ==> free@[j] == j,
                forall|j: int| 0 <= j < k ==> heads@[j] == FREE_HEAD,
            decreases max_strong_observers - k,
        {
            free.push(k);
            heads.push(FREE_HEAD);
            k = k + 1;
        }
        let r = QueueTable {
            buffer,
            n_receivers: 0,
            head_index: FREE_HEAD,
            tail_index: 0,
            strong_observer_heads: heads,
            free_strong_observer_heads: free,
            history: Ghost(Seq::empty()),
        };
        assert forall|k: int|
            0 <= k < r.strong_observer_heads@.len() && #[trigger] r.strong_observer_heads@[k]
                == FREE_HEAD implies r.free_strong_observer_heads@.contains(k as usize) by {
            assert(r.free_strong_observer_heads@[k] == k as usize);
        }
        assert(r@.observers =~= Seq::new(max_strong_observers as nat, |k: int| None::<int>));
        assert(r@.free =~= Seq::new(max_strong_observers as nat, |k: int| k as usize));
        r
    }

    /// The slot of row `i`.
    fn mod_len(&self, i: usize) -> (r: usize)
        requires
            self.buffer@.len() > 0,
        ensures
            r == i as int % self.cap(),
            r < self.cap(),
    {
        i % self.buffer.len()
    }

    /// The row the next send writes, if a send has room.
    pub fn can_send(&self) -> (r: Option<usize>)
        requires
            self.wf(),
        ensures
            r == (if self@.send_blocked() {
                None
            } else {
                Some(self@.tail() as usize)
            }),
    {
        proof {
            self.lemma_view_valid();
        }
        let head_slot = self.mod_len(self.head_index);
        let next_tail_slot = self.mod_len(self.tail_index + 1);
        if self.n_receivers > 0 {
            proof {
                lemma_next_row_meets(
                    self.tail_index as int,
                    self.head_index as int,
                    self.cap(),
                );
            }
            if next_tail_slot == head_slot {
                assert(self@.blocked_by_receivers());
                return None;
            }
        }
        let mut k: usize = 0;
        while k < self.strong_observer_heads.len()
            invariant
                self.wf(),
                k <= self.strong_observer_heads@.len(),
                next_tail_slot == (self.tail_index + 1) as int % self.cap(),
                forall|k2: int| 0 <= k2 < k ==> !#[trigger] self@.blocked_by_observer(k2),
            decreases self.strong_observer_heads@.len() - k,
        {
            let h = self.strong_observer_heads[k];
            assert(self@.observers[k as int] == (if h == FREE_HEAD {
                None
            } else {
                Some(h as int)
            }));
            if h != FREE_HEAD {
                proof {
                    lemma_next_row_meets(self.tail_index as int, h as int, self.cap());
                }
                if next_tail_slot == self.mod_len(h) {
                    assert(self@.blocked_by_observer(k as int));
                    return None;
                }
            }
            k = k + 1;
        }
        assert(!self@.blocked_by_receivers());
        Some(self.tail_index)
    }

    /// Put `v` at the tail if a send has room, else hand it back.
    pub fn try_send(&mut self, v: T) -> (r: Option<T>)
        requires
            old(self).wf(),
            old(self)@.tail() + 1 < usize::MAX,
        ensures
            final(self).wf(),
            old(self)@.send_blocked() ==> r == Some(v) && final(self)@ == old(self)@,
            !old(self)@.send_blocked() ==> r is None && final(self)@ == old(self)@.sent(v),
            old(self).all_stored() ==> final(self).all_stored(),
    {
        proof {
            self.lemma_view_valid();
        }
        match self.can_send() {
            None => Some(v),
            Some(tail_index) => {
                let ghost pre = *self;
                let slot = self.mod_len(tail_index);
                self.history = Ghost(self.history@.push(v));
                self.buffer.set(slot, Some(v));
                self.tail_index = tail_index + 1;
                proof {
                    let n = pre.cap();
                    let t = pre.tail_index as int;
                    assert(self.cap() == n);
                    // Rows that stay in the window keep their slots.
                    assert forall|i: int| 0 <= i && t + 1 - n <= i < t implies self.buffer@[i % n]
                        == pre.buffer@[i % n] && self.history@[i] == pre.history@[i] by {
                        if i % n == t % n {
                            lemma_close_rows_distinct_slots(t, i, n);
                        }
                    }
                    assert forall|i: int|
                        self.window_lo() <= i < self.tail_index implies #[trigger] self.row_consistent(
                        i,
                    ) by {
                        if i < t {
                            assert(pre.row_consistent(i));
                        }
                    }
                    if self.n_receivers > 0 {
                        assert(!pre@.blocked_by_receivers());
                        assert forall|i: int|
                            self.head_index <= i < self.tail_index implies #[trigger] self.stored(
                            i,
                        ) by {
                            if i < t {
                                assert(pre.stored(i));
                            }
                        }
                    }
                    assert forall|k: int|
                        0 <= k < self.strong_observer_heads@.len() implies (
                        #[trigger] self.strong_observer_heads@[k] == FREE_HEAD || (
                        self.strong_observer_heads@[k] <= self.tail_index && self.tail_index
                            - self.strong_observer_heads@[k] < self.cap())) by {
                        assert(pre@.observers[k] == (if pre.strong_observer_heads@[k]
                            == FREE_HEAD {
                            None
                        } else {
                            Some(pre.strong_observer_heads@[k] as int)
                        }));
                        assert(!pre@.blocked_by_observer(k));
                    }
                    assert forall|k: int, i: int| #[trigger]
                        self.observer_pins(k, i) implies self.stored(i) by {
                        if i < t {
                            assert(pre.observer_pins(k, i));
                            assert(pre@.observers[k] == Some(
                                pre.strong_observer_heads@[k] as int,
                            ));
                            assert(!pre@.blocked_by_observer(k));
                        }
                    }
                    if pre.all_stored() {
                        assert forall|i: int|
                            self.window_lo() <= i < self.tail_index implies #[trigger] self.stored(
                            i,
                        ) by {
                            if i < t {
                                assert(pre.stored(i));
                            }
                        }
                    }
                    assert(self@.observers =~= pre@.observers);
                    assert(self@ =~= pre@.sent(v));
                }
                None
            },
        }
    }

    /// The row the next send writes.
    pub fn tail(&self) -> (r: usize)
        requires
            self.wf(),
        ensures
            r == self@.tail(),
    {
        self.tail_index
    }

    /// The number of attached receivers.
    pub fn receivers(&self) -> (r: usize)
        requires
            self.wf(),
        ensures
            r == self@.receivers,
    {
        self.n_receivers
    }

    /// The number of strong-observer slots, free or not.
    pub fn observer_slots(&self) -> (r: usize)
        requires
            self.wf(),
        ensures
            r == self@.observers.len(),
    {
        self.strong_observer_heads.len()
    }

    /// Register one more receiver. The first receiver starts at the tail; later ones share its
    /// head.
    pub fn attach_receiver(&mut self)
        requires
            old(self).wf(),
            old(self)@.receivers < usize::MAX,
        ensures
            final(self).wf(),
            final(self)@ == old(self)@.receiver_attached(),
            old(self).all_stored() ==> final(self).all_stored(),
    {
        if self.n_receivers == 0 {
            self.head_index = self.tail_index;
        }
        self.n_receivers = self.n_receivers + 1;
        proof {
            Self::lemma_same_rows(*old(self), *self);
            assert(self@.observers =~= old(self)@.observers);
            assert forall|k: int, i: int| #[trigger]
                self.observer_pins(k, i) implies self.stored(i) by {
                assert(old(self).observer_pins(k, i));
            }
        }
    }

    /// Unregister a receiver. When the last one leaves, the head is freed.
    pub fn drop_receiver(&mut self)
        requires
            old(self).wf(),
            old(self)@.receivers > 0,
        ensures
            final(self).wf(),
            final(self)@ == old(self)@.receiver_detached(),
            old(self).all_stored() ==> final(self).all_stored(),
    {
        self.n_receivers = self.n_receivers - 1;
        if self.n_receivers == 0 {
            self.head_index = FREE_HEAD;
        }
        proof {
            Self::lemma_same_rows(*old(self), *self);
            assert(self@.observers =~= old(self)@.observers);
            assert forall|k: int, i: int| #[trigger]
                self.observer_pins(k, i) implies self.stored(i) by {
                assert(old(self).observer_pins(k, i));
            }
        }
    }

    /// The slot holding row `head_index`, or `None` when that row has not been sent yet.
    fn try_take_for_head(&self, head_index: usize) -> (r: Option<usize>)
        requires
            self.wf(),
            head_index <= self.tail_index,
            self.tail_index - head_index < self.cap(),
        ensures
            r is None <==> head_index == self.tail_index,
            r is Some ==> r->0 as int == head_index as int % self.cap(),
    {
        if self.mod_len(head_index) == self.mod_len(self.tail_index) {
            proof {
                lemma_close_rows_distinct_slots(
                    self.tail_index as int,
                    head_index as int,
                    self.cap(),
                );
            }
            return None;
        }
        let head_slot = self.mod_len(head_index);
        Some(head_slot)
    }

    /// Move the row at the receivers' head out of the buffer, if there is one.
    pub fn try_receive(&mut self) -> (r: Option<T>)
        requires
            old(self).wf(),
            old(self)@.receivers > 0,
            forall|k: int| 0 <= k < old(self)@.observers.len() ==> old(self)@.observers[k] is None,
        ensures
            final(self).wf(),
            old(self)@.head == old(self)@.tail() ==> r is None && final(self)@ == old(self)@,
            old(self)@.head < old(self)@.tail() ==> r == Some(old(self)@.history[old(self)@.head])
                && final(self)@ == old(self)@.head_advanced() && final(self).moved_out(
                old(self)@.head,
            ),
    {
        proof {
            self.lemma_view_valid();
        }
        match self.try_take_for_head(self.head_index) {
            None => None,
            Some(slot) => {
                let ghost pre = *self;
                proof {
                    assert(pre.stored(pre.head_index as int));
                    assert(slot as int == pre.head_index as int % pre.cap());
                    assert(pre.buffer@[slot as int] == Some(pre.history@[pre.head_index as int]));
                }
                let mut taken: Option<T> = None;
                self.buffer.set_and_swap(slot, &mut taken);
                let v = taken.unwrap();
                self.head_index = self.head_index + 1;
                proof {
                    let n = pre.cap();
                    let h = pre.head_index as int;
                    let t = pre.tail_index as int;
                    assert(self.cap() == n);
                    assert forall|i: int| h < i < t implies #[trigger] self.buffer@[i % n]
                        == pre.buffer@[i % n] by {
                        if i % n == h % n {
                            lemma_close_rows_distinct_slots(i, h, n);
                        }
                    }
                    assert forall|i: int| self.window_lo() <= i < self.tail_index implies #[trigger]
                        self.row_consistent(i) by {
                        assert(pre.row_consistent(i));
                        if i % n != h % n {
                            assert(self.buffer@[i % n] == pre.buffer@[i % n]);
                        }
                    }
                    assert forall|i: int|
                        self.head_index <= i < self.tail_index implies #[trigger] self.stored(i) by {
                        assert(pre.stored(i));
                    }
                    assert forall|k: int, i: int| #[trigger]
                        self.observer_pins(k, i) implies self.stored(i) by {
                        assert(pre@.observers[k] == Some(pre.strong_observer_heads@[k] as int));
                    }
                    assert(self@.observers =~= pre@.observers);
                    assert(self@ =~= pre@.head_advanced());
                }
                Some(v)
            },
        }
    }

    /// Whether the receivers' head is behind the tail.
    pub fn can_receive(&self) -> (r: bool)
        requires
            self.wf(),
        ensures
            r == (self@.head != self@.tail()),
    {
        self.head_index != self.tail_index
    }

    /// Clone the row at the receivers' head and move the head past it, if there is one. The row
    /// stays in the buffer for observers.
    pub fn try_receive_clone(&mut self) -> (r: Option<T>)
        where
            T: Clone,
        requires
            old(self).wf(),
            old(self)@.receivers > 0,
        ensures
            final(self).wf(),
            old(self).all_stored() ==> final(self).all_stored(),
            old(self)@.head == old(self)@.tail() ==> r is None && final(self)@ == old(self)@,
            old(self)@.head < old(self)@.tail() ==> r is Some && cloned(
                old(self)@.history[old(self)@.head],
                r->0,
            ) && final(self)@ == old(self)@.head_advanced(),
    {
        proof {
            self.lemma_view_valid();
        }
        match self.try_take_for_head(self.head_index) {
            None => None,
            Some(slot) => {
                proof {
                    assert(self.stored(self.head_index as int));
                    assert(slot as int == self.head_index as int % self.cap());
                    assert(self.buffer@[slot as int] == Some(self.history@[self.head_index as int]));
                }
                let res = self.buffer[slot].clone();
                let v = res.unwrap();
                let ghost pre = *self;
                self.head_index = self.head_index + 1;
                proof {
                    Self::lemma_same_rows(pre, *self);
                    assert forall|k: int, i: int| #[trigger]
                        self.observer_pins(k, i) implies self.stored(i) by {
                        assert(pre.observer_pins(k, i));
                    }
                    assert(self@.observers =~= pre@.observers);
                    assert(self@ =~= pre@.head_advanced());
                }
                Some(v)
            },
        }
    }

    /// Clone the next row for the strong observer in slot `k` and move its head past it, if the
    /// row has been sent.
    pub fn try_strong_observe(&mut self, k: usize) -> (r: Option<T>)
        where
            T: Clone,
        requires
            old(self).wf(),
            old(self)@.observer_attached(k as int),
        ensures
            final(self).wf(),
            old(self).all_stored() ==> final(self).all_stored(),
            old(self)@.observers[k as int]->0 == old(self)@.tail() ==> r is None && final(self)@
                == old(self)@,
            old(self)@.observers[k as int]->0 < old(self)@.tail() ==> r is Some && cloned(
                old(self)@.history[old(self)@.observers[k as int]->0],
                r->0,
            ) && final(self)@ == old(self)@.observer_advanced(k as int),
    {
        proof {
            self.lemma_view_valid();
        }
        let h = self.strong_observer_heads[k];
        assert(self@.observers[k as int] == Some(h as int));
        match self.try_take_for_head(h) {
            None => None,
            Some(slot) => {
                proof {
                    assert(self.observer_pins(k as int, h as int));
                    assert(self.stored(h as int));
                    assert(self.buffer@[slot as int] == Some(self.history@[h as int]));
                }
                let res = self.buffer[slot].clone();
                let v = res.unwrap();
                let ghost pre = *self;
                self.strong_observer_heads.set(k, h + 1);
                proof {
                    Self::lemma_same_rows(pre, *self);
                    assert forall|k2: int, i: int| #[trigger]
                        self.observer_pins(k2, i) implies self.stored(i) by {
                        assert(pre.observer_pins(k2, i));
                    }
                    Self::lemma_head_set_in_window(pre, *self, k as int, (h + 1) as usize);
                    assert forall|j: int|
                        0 <= j < self.free_strong_observer_heads@.len() implies (
                        #[trigger] self.free_strong_observer_heads@[j])
                        < self.strong_observer_heads@.len()
                        && self.strong_observer_heads@[self.free_strong_observer_heads@[j] as int]
                        == FREE_HEAD by {
                        assert(pre.strong_observer_heads@[pre.free_strong_observer_heads@[j] as int]
                            == FREE_HEAD);
                    }
                    assert forall|k2: int|
                        0 <= k2 < self.strong_observer_heads@.len()
                            && #[trigger] self.strong_observer_heads@[k2]
                        == FREE_HEAD implies self.free_strong_observer_heads@.contains(k2 as usize) by {
                        assert(pre.strong_observer_heads@[k2] == FREE_HEAD);
                    }
                    assert(self@.observers =~= pre@.observers.update(k as int, Some(h + 1)));
                    assert(self@ =~= pre@.observer_advanced(k as int));
                }
                Some(v)
            },
        }
    }

    /// Whether the strong observer in slot `k` is behind the tail.
    pub fn can_strong_observe(&self, k: usize) -> (r: bool)
        requires
            self.wf(),
            self@.observer_attached(k as int),
        ensures
            r == (self@.observers[k as int]->0 != self@.tail()),
    {
        assert(self@.observers[k as int] == Some(self.strong_observer_heads@[k as int] as int));
        self.strong_observer_heads[k] != self.tail_index
    }

    /// A clone of row `index`, if the buffer still holds it.
    pub fn try_weak_observe(&self, index: usize) -> (r: Option<T>)
        where
            T: Clone,
        requires
            self.wf(),
        ensures
            r is Some <==> self@.in_window(index as int) && !self.moved_out(index as int),
            r is Some ==> cloned(self@.history[index as int], r->0),
            self.all_stored() && self@.in_window(index as int) ==> r is Some,
    {
        proof {
            self.lemma_view_valid();
        }
        let lo = if self.tail_index <= self.buffer.len() {
            0
        } else {
            self.tail_index - self.buffer.len()
        };
        if index < lo || index >= self.tail_index {
            return None;
        }
        let slot = self.mod_len(index);
        proof {
            assert(self.row_consistent(index as int));
            if self.all_stored() {
                assert(self.stored(index as int));
            }
        }
        self.buffer[slot].clone()
    }

    /// Allocate the last free strong-observer slot and start it at the tail.
    pub fn attach_observer_slot(&mut self) -> (r: Option<usize>)
        requires
            old(self).wf(),
        ensures
            final(self).wf(),
            old(self).all_stored() ==> final(self).all_stored(),
            old(self)@.free.len() == 0 ==> r is None && final(self)@ == old(self)@,
            old(self)@.free.len() > 0 ==> r == Some(old(self)@.free.last()) && final(self)@
                == old(self)@.observer_slot_taken(),
    {
        proof {
            self.lemma_view_valid();
        }
        if self.free_strong_observer_heads.len() == 0 {
            return None;
        }
        let ghost pre = *self;
        match self.free_strong_observer_heads.pop() {
            None => None,
            Some(index) => {
                proof {
                    let last = pre.free_strong_observer_heads@.len() - 1;
                    assert(pre.free_strong_observer_heads@[last] == index);
                }
                self.strong_observer_heads.set(index, self.tail_index);
                proof {
                    let last = pre.free_strong_observer_heads@.len() - 1;
                    assert(self.free_strong_observer_heads@ =~= pre.free_strong_observer_heads@.drop_last());
                    assert forall|j: int|
                        0 <= j < self.free_strong_observer_heads@.len() implies (
                        #[trigger] self.free_strong_observer_heads@[j])
                        < self.strong_observer_heads@.len()
                        && self.strong_observer_heads@[self.free_strong_observer_heads@[j] as int]
                        == FREE_HEAD by {
                        assert(pre.free_strong_observer_heads@[j] == self.free_strong_observer_heads@[j]);
                        assert(pre.free_strong_observer_heads@[j] != pre.free_strong_observer_heads@[last]);
                    }
                    assert forall|k2: int|
                        0 <= k2 < self.strong_observer_heads@.len()
                            && #[trigger] self.strong_observer_heads@[k2]
                        == FREE_HEAD implies self.free_strong_observer_heads@.contains(k2 as usize) by {
                        assert(k2 != index);
                        assert(self.strong_observer_heads@.len() == self.strong_observer_heads.len());
                        assert(k2 as usize == k2);
                        assert(pre.strong_observer_heads@[k2] == FREE_HEAD);
                        assert(pre.free_strong_observer_heads@.contains(k2 as usize));
                        let j = choose|j: int| 0 <= j < pre.free_strong_observer_heads@.len()
                            && pre.free_strong_observer_heads@[j] == k2 as usize;
                        assert(pre.free_strong_observer_heads@[last] == index);
                        assert(j != last);
                        assert(self.free_strong_observer_heads@[j] == k2 as usize);
                    }
                    Self::lemma_head_set_in_window(pre, *self, index as int, pre.tail_index);
                    Self::lemma_same_rows(pre, *self);
                    assert forall|k2: int, i: int| #[trigger]
                        self.observer_pins(k2, i) implies self.stored(i) by {
                        if k2 != index {
                            assert(pre.observer_pins(k2, i));
                        }
                    }
                    assert(self@.observers =~= pre@.observers.update(
                        index as int,
                        Some(pre.tail_index as int),
                    ));
                    assert(self@ =~= pre@.observer_slot_taken());
                }
                Some(index)
            },
        }
    }

    /// Free the strong-observer slot `k` so that it is ignored and available again.
    pub fn release_observer_slot(&mut self, k: usize)
        requires
            old(self).wf(),
            old(self)@.observer_attached(k as int),
        ensures
            final(self).wf(),
            old(self).all_stored() ==> final(self).all_stored(),
            final(self)@ == old(self)@.observer_slot_released(k),
    {
        proof {
            self.lemma_view_valid();
        }
        let ghost pre = *self;
        self.strong_observer_heads.set(k, FREE_HEAD);
        self.free_strong_observer_heads.push(k);
        proof {
            assert(pre@.observers[k as int] == Some(pre.strong_observer_heads@[k as int] as int));
            assert(pre.strong_observer_heads@[k as int] != FREE_HEAD);
            assert forall|j: int|
                0 <= j < self.free_strong_observer_heads@.len() implies (
                #[trigger] self.free_strong_observer_heads@[j]) < self.strong_observer_heads@.len()
                && self.strong_observer_heads@[self.free_strong_observer_heads@[j] as int]
                == FREE_HEAD by {
                if j < pre.free_strong_observer_heads@.len() {
                    assert(pre.free_strong_observer_heads@[j] == self.free_strong_observer_heads@[j]);
                    assert(pre.strong_observer_heads@[pre.free_strong_observer_heads@[j] as int]
                        == FREE_HEAD);
                }
            }
            assert forall|j1: int, j2: int|
                0 <= j1 < j2 < self.free_strong_observer_heads@.len() implies self.free_strong_observer_heads@[j1]
                != self.free_strong_observer_heads@[j2] by {
                if j2 == pre.free_strong_observer_heads@.len() {
                    assert(pre.strong_observer_heads@[pre.free_strong_observer_heads@[j1] as int]
                        == FREE_HEAD);
                }
            }
            assert forall|k2: int|
                0 <= k2 < self.strong_observer_heads@.len()
                    && #[trigger] self.strong_observer_heads@[k2]
                == FREE_HEAD implies self.free_strong_observer_heads@.contains(k2 as usize) by {
                if k2 == k as int {
                    assert(self.free_strong_observer_heads@[pre.free_strong_observer_heads@.len() as int] == k);
                } else {
                    assert(pre.strong_observer_heads@[k2] == FREE_HEAD);
                    let j = choose|j: int| 0 <= j < pre.free_strong_observer_heads@.len()
                        && pre.free_strong_observer_heads@[j] == k2 as usize;
                    assert(self.free_strong_observer_heads@[j] == k2 as usize);
                }
            }
            Self::lemma_head_set_in_window(pre, *self, k as int, FREE_HEAD);
            Self::lemma_same_rows(pre, *self);
            assert forall|k2: int, i: int| #[trigger]
                self.observer_pins(k2, i) implies self.stored(i) by {
                assert(pre.observer_pins(k2, i));
            }
            assert(self@.observers =~= pre@.observers.update(k as int, None));
            assert(self@ =~= pre@.observer_slot_released(k));
        }
    }
}

} // verus!
