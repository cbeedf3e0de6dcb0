//! What holds of every oqueue across operations, stated over the queue's view.

use vstd::prelude::*;
use vstd::set_lib::lemma_int_range;
use vstd::set_lib::lemma_len_subset;
use vstd::set_lib::lemma_set_disjoint_lens;
use vstd::set_lib::set_int_range;
use crate::oqueue::table::QueueState;

verus! {

/// A successful send appends its value to what the receivers have yet to take.
pub proof fn law_send_appends_to_pending<T>(q: QueueState<T>, v: T)
    requires
        q.valid(),
        q.receivers > 0,
    ensures
        q.sent(v).pending() == q.pending().push(v),
{
    assert(q.sent(v).pending() =~= q.pending().push(v));
}

/// A successful receive gives the oldest pending value and removes exactly that value from what
/// the receivers have yet to take (each value goes to exactly one receiver, in sending order).
pub proof fn law_receive_takes_oldest_pending<T>(q: QueueState<T>)
    requires
        q.valid(),
        q.receivers > 0,
        q.head < q.tail(),
    ensures
        q.pending().len() > 0,
        q.history[q.head] == q.pending()[0],
        q.head_advanced().pending() == q.pending().drop_first(),
{
    assert(q.head_advanced().pending() =~= q.pending().drop_first());
}

/// What a receive gives back of a send: on a queue with nothing pending for its receivers, a
/// send that had room followed by a receive hands the receiver the value that was sent, and
/// leaves nothing pending.
pub proof fn law_receive_returns_sent<T>(q: QueueState<T>, v: T)
    requires
        q.valid(),
        q.receivers > 0,
        q.head == q.tail(),
        !q.send_blocked(),
        q.tail() + 1 < usize::MAX,
    ensures
        q.sent(v).valid(),
        q.sent(v).head < q.sent(v).tail(),
        q.sent(v).history[q.sent(v).head] == v,
        q.sent(v).head_advanced().pending() == Seq::<T>::empty(),
{
    assert(q.sent(v).head_advanced().pending() =~= Seq::<T>::empty());
    law_valid_after_send(q, v);
}

/// Sending keeps a queue valid whenever the send has room.
pub proof fn law_valid_after_send<T>(q: QueueState<T>, v: T)
    requires
        q.valid(),
        !q.send_blocked(),
        q.tail() + 1 < usize::MAX,
    ensures
        q.sent(v).valid(),
{
    let s = q.sent(v);
    assert forall|k: int|
        0 <= k < s.observers.len() && (#[trigger] s.observers[k]) is Some implies 0
            <= s.observers[k]->0 <= s.tail() && s.tail() - s.observers[k]->0 < s.capacity by {
        assert(!q.blocked_by_observer(k));
    }
}

/// With receivers attached and no strong observer, the queue holds at most `capacity - 1`
/// values for them, and a send is refused exactly when it holds that many.
pub proof fn law_receiver_capacity<T>(q: QueueState<T>)
    requires
        q.valid(),
        q.receivers > 0,
        forall|k: int| 0 <= k < q.observers.len() ==> q.observers[k] is None,
    ensures
        q.pending().len() <= q.capacity - 1,
        q.send_blocked() <==> q.pending().len() == q.capacity - 1,
{
}

/// With no receiver and no strong observer attached, every send has room: values are written
/// whenever they are produced, overwriting the oldest.
pub proof fn law_unobserved_sends_never_block<T>(q: QueueState<T>)
    requires
        q.receivers == 0,
        forall|k: int| 0 <= k < q.observers.len() ==> q.observers[k] is None,
    ensures
        !q.send_blocked(),
{
}

/// A strong observer that has `capacity - 1` values left to observe holds every sender back.
pub proof fn law_lagging_observer_blocks_senders<T>(q: QueueState<T>, k: int)
    requires
        q.observer_attached(k),
        q.tail() - q.observers[k]->0 == q.capacity - 1,
    ensures
        q.send_blocked(),
{
    assert(q.blocked_by_observer(k));
}

/// Sends and receives leave every strong observer's position alone: each strong observer sees
/// every value exactly once, whatever receivers do.
pub proof fn law_observers_independent_of_senders_and_receivers<T>(q: QueueState<T>, v: T)
    ensures
        q.sent(v).observers == q.observers,
        q.head_advanced().observers == q.observers,
        q.receiver_attached().observers == q.observers,
        q.receiver_detached().observers == q.observers,
{
}

/// A strong observation returns the row at the observer's position and moves only that
/// observer, by one row.
pub proof fn law_observe_advances_one_observer<T>(q: QueueState<T>, k: int, k2: int)
    requires
        q.observer_attached(k),
        0 <= k2 < q.observers.len(),
        k2 != k,
    ensures
        q.observer_advanced(k).observers[k] == Some(q.observers[k]->0 + 1),
        q.observer_advanced(k).observers[k2] == q.observers[k2],
        q.observer_advanced(k).history == q.history,
        q.observer_advanced(k).head == q.head,
{
}

/// The wake-up checks are exact: for a receiver, "the head is not at the tail" (what
/// `can_receive` reports) holds exactly when a receive returns a value; for a strong observer,
/// "its position is not at the tail" (what `can_strong_observe` reports) holds exactly when an
/// observation returns a value. For senders, `can_send` reports `!send_blocked()`, which is
/// exactly when a send succeeds.
pub proof fn law_should_try_is_exact<T>(q: QueueState<T>, k: int)
    requires
        q.valid(),
    ensures
        q.receivers > 0 ==> ((q.head != q.tail()) <==> (q.head < q.tail())),
        q.observer_attached(k) ==> ((q.observers[k]->0 != q.tail()) <==> (q.observers[k]->0
            < q.tail())),
{
}

/// Without receivers, only strong observers can hold senders back.
pub proof fn law_no_receivers_only_observers_block<T>(q: QueueState<T>)
    requires
        q.receivers == 0,
    ensures
        q.send_blocked() <==> exists|k: int|
            0 <= k < q.observers.len() && #[trigger] q.blocked_by_observer(k),
{
}

/// The free strong-observer slots and the attached ones together are all the slots: with `m`
/// slots and `a` observers attached, `m - a` slots are free.
pub proof fn law_free_slots_count<T>(q: QueueState<T>)
    requires
        q.valid(),
    ensures
        q.free.len() + q.attached_slots().len() == q.observers.len(),
        q.attached_slots().finite(),
{
    let n = q.observers.len() as int;
    let free_ints = q.free.map_values(|x: usize| x as int);
    let free_set = Set::new(|k: int| 0 <= k < n && q.observers[k] is None);
    let all = set_int_range(0, n);
    lemma_int_range(0, n);
    assert forall|i: int, j: int|
        0 <= i < j < free_ints.len() implies free_ints[i] != free_ints[j] by {
        assert(q.free[i] != q.free[j]);
    }
    assert(free_ints.no_duplicates());
    assert(free_ints.to_set() =~= free_set) by {
        assert forall|k: int| free_set.contains(k) implies free_ints.to_set().contains(k) by {
            assert(q.observers[k] is None);
            assert(q.free.contains(k as usize));
            let j = choose|j: int| 0 <= j < q.free.len() && q.free[j] == k as usize;
            assert(free_ints[j] == k);
        }
        assert forall|k: int| free_ints.to_set().contains(k) implies free_set.contains(k) by {
            let j = choose|j: int| 0 <= j < free_ints.len() && free_ints[j] == k;
            assert(q.free[j] < q.observers.len());
            assert(q.observers[q.free[j] as int] is None);
        }
    }
    free_ints.unique_seq_to_set();
    lemma_len_subset(free_set, all);
    lemma_len_subset(q.attached_slots(), all);
    assert(free_set.disjoint(q.attached_slots()));
    lemma_set_disjoint_lens(free_set, q.attached_slots());
    assert(free_set + q.attached_slots() =~= all);
}

/// A strong observer can attach exactly when fewer observers are attached than there are
/// slots.
pub proof fn law_attach_succeeds_iff_slot_left<T>(q: QueueState<T>)
    requires
        q.valid(),
    ensures
        q.free.len() > 0 <==> q.attached_slots().len() < q.observers.len(),
{
    law_free_slots_count(q);
}

/// The state after sending each of `vs` in turn.
pub open spec fn sent_all<T>(q: QueueState<T>, vs: Seq<T>) -> QueueState<T>
    decreases vs.len(),
{
    if vs.len() == 0 {
        q
    } else {
        sent_all(q, vs.drop_last()).sent(vs.last())
    }
}

/// With no receiver and no strong observer attached, any number of sends all have room, and
/// the history grows by exactly the values sent.
pub proof fn law_unobserved_sends_all_succeed<T>(q: QueueState<T>, vs: Seq<T>)
    requires
        q.receivers == 0,
        forall|k: int| 0 <= k < q.observers.len() ==> q.observers[k] is None,
    ensures
        forall|i: int| 0 <= i <= vs.len() ==> !(#[trigger] sent_all(q, vs.take(i))).send_blocked(),
        sent_all(q, vs).history == q.history + vs,
        sent_all(q, vs).receivers == 0,
        sent_all(q, vs).observers == q.observers,
    decreases vs.len(),
{
    if vs.len() > 0 {
        let prefix = vs.drop_last();
        law_unobserved_sends_all_succeed(q, prefix);
        assert forall|i: int| 0 <= i <= vs.len() implies !(#[trigger] sent_all(
            q,
            vs.take(i),
        )).send_blocked() by {
            if i < vs.len() {
                assert(vs.take(i) =~= prefix.take(i));
            } else {
                assert(vs.take(i) =~= vs);
                law_unobserved_sends_never_block(sent_all(q, vs));
            }
        }
        assert(sent_all(q, vs).history =~= q.history + vs);
    } else {
        assert forall|i: int| 0 <= i <= vs.len() implies !(#[trigger] sent_all(
            q,
            vs.take(i),
        )).send_blocked() by {
            assert(vs.take(i) =~= vs);
        }
        assert(q.history + vs =~= q.history);
    }
}

/// Attaching a receiver and detaching it again restores the queue.
pub proof fn law_receiver_attach_detach_roundtrip<T>(q: QueueState<T>)
    requires
        q.receivers > 0 || q.head == usize::MAX as int,
    ensures
        q.receiver_attached().receiver_detached() == q,
{
}

/// Attaching a strong observer and detaching it again restores the queue: its slot is free
/// again and is the next one handed out.
pub proof fn law_observer_attach_detach_roundtrip<T>(q: QueueState<T>)
    requires
        q.valid(),
        q.free.len() > 0,
    ensures
        q.observer_slot_taken().observer_slot_released(q.free.last()) == q,
{
    let k = q.free.last();
    assert(q.free[q.free.len() - 1] == k);
    assert(q.observers[k as int] is None);
    let r = q.observer_slot_taken().observer_slot_released(k);
    assert(r.observers =~= q.observers);
    assert(r.free =~= q.free);
}

/// Once something was sent, the most recent row and the oldest row still held are both in the
/// buffer, at most `capacity - 1` rows apart.
pub proof fn law_recent_and_oldest_in_window<T>(q: QueueState<T>)
    requires
        q.valid(),
        q.tail() > 0,
    ensures
        q.in_window(q.tail() - 1),
        q.in_window(q.oldest()),
        q.oldest() <= q.tail() - 1,
        q.tail() - 1 - q.oldest() <= q.capacity - 1,
{
}

/// One operation of senders and receivers on a queue.
pub enum QueueOp<T> {
    /// A sender offers a value; it is put in when the send has room and handed back otherwise.
    Send(T),
    /// A receiver takes the oldest value no receiver has taken, if there is one.
    Receive,
}

/// The queue after `ops` were applied to `q` in turn, with the values the sends put in and the
/// values the receives returned, each oldest first.
pub open spec fn run_ops<T>(q: QueueState<T>, ops: Seq<QueueOp<T>>) -> (QueueState<T>, Seq<T>, Seq<T>)
    decreases ops.len(),
{
    if ops.len() == 0 {
        (q, Seq::empty(), Seq::empty())
    } else {
        let (p, sent, received) = run_ops(q, ops.drop_last());
        match ops.last() {
            QueueOp::Send(v) => if p.send_blocked() {
                (p, sent, received)
            } else {
                (p.sent(v), sent.push(v), received)
            },
            QueueOp::Receive => if p.head < p.tail() {
                (p.head_advanced(), sent, received.push(p.history[p.head]))
            } else {
                (p, sent, received)
            },
        }
    }
}

/// Exactly-once delivery in sending order: over any sequence of sends and receives on a queue
/// with receivers, what the receives return, followed by what is still pending, is what was
/// pending at the start followed by what the sends put in. So every value put in is returned by
/// exactly one receive, never twice, in the order it was sent; and a receive comes back empty
/// only when nothing is pending. The queue stays valid throughout.
pub proof fn law_receives_deliver_sends_in_order<T>(q: QueueState<T>, ops: Seq<QueueOp<T>>)
    requires
        q.valid(),
        q.receivers > 0,
        q.tail() + ops.len() < usize::MAX,
    ensures
        run_ops(q, ops).0.valid(),
        run_ops(q, ops).0.receivers == q.receivers,
        run_ops(q, ops).0.tail() <= q.tail() + ops.len(),
        run_ops(q, ops).2 + run_ops(q, ops).0.pending() == q.pending() + run_ops(q, ops).1,
    decreases ops.len(),
{
    if ops.len() > 0 {
        let prefix = ops.drop_last();
        law_receives_deliver_sends_in_order(q, prefix);
        let (p, sent, received) = run_ops(q, prefix);
        match ops.last() {
            QueueOp::Send(v) => {
                if !p.send_blocked() {
                    law_valid_after_send(p, v);
                    law_send_appends_to_pending(p, v);
                    assert(received + p.pending().push(v) =~= (received + p.pending()).push(v));
                    assert((q.pending() + sent).push(v) =~= q.pending() + sent.push(v));
                }
            },
            QueueOp::Receive => {
                if p.head < p.tail() {
                    law_receive_takes_oldest_pending(p);
                    assert(received.push(p.history[p.head]) + p.head_advanced().pending()
                        =~= received + p.pending());
                }
            },
        }
    } else {
        assert(Seq::<T>::empty() + q.pending() =~= q.pending() + Seq::<T>::empty());
    }
}

/// A send is refused exactly when the next write would overwrite a row that someone has yet to
/// read: when the receivers have `capacity - 1` rows pending, or some attached strong observer
/// has `capacity - 1` rows left to observe. An observer with fewer unread rows never holds a
/// sender back.
pub proof fn law_send_refused_exactly_when_a_reader_is_full<T>(q: QueueState<T>)
    requires
        q.valid(),
    ensures
        q.send_blocked() <==> ((q.receivers > 0 && q.tail() - q.head == q.capacity - 1)
            || exists|k: int| #[trigger]
            q.observer_attached(k) && q.tail() - q.observers[k]->0 == q.capacity - 1),
        (forall|k: int| #[trigger]
            q.observer_attached(k) ==> q.tail() - q.observers[k]->0 < q.capacity - 1) && (
        q.receivers == 0 || q.tail() - q.head < q.capacity - 1) ==> !q.send_blocked(),
{
    if q.send_blocked() && !(q.receivers > 0 && q.tail() - q.head == q.capacity - 1) {
        let k = choose|k: int| 0 <= k < q.observers.len() && #[trigger] q.blocked_by_observer(k);
        assert(q.observer_attached(k));
    }
    if exists|k: int| #[trigger]
        q.observer_attached(k) && q.tail() - q.observers[k]->0 == q.capacity - 1 {
        let k = choose|k: int| #[trigger]
            q.observer_attached(k) && q.tail() - q.observers[k]->0 == q.capacity - 1;
        assert(q.blocked_by_observer(k));
    }
    if q.send_blocked() && (forall|k: int| #[trigger]
        q.observer_attached(k) ==> q.tail() - q.observers[k]->0 < q.capacity - 1) && (q.receivers
        == 0 || q.tail() - q.head < q.capacity - 1) {
        let k = choose|k: int| 0 <= k < q.observers.len() && #[trigger] q.blocked_by_observer(k);
        assert(q.observer_attached(k));
    }
}

/// Sending keeps everything but the history, which grows by exactly the values sent.
proof fn lemma_sent_all_shape<T>(q: QueueState<T>, vs: Seq<T>)
    ensures
        sent_all(q, vs).history == q.history + vs,
        sent_all(q, vs).capacity == q.capacity,
        sent_all(q, vs).receivers == q.receivers,
        sent_all(q, vs).head == q.head,
        sent_all(q, vs).observers == q.observers,
    decreases vs.len(),
{
    if vs.len() > 0 {
        lemma_sent_all_shape(q, vs.drop_last());
        assert(q.history + vs.drop_last() + seq![vs.last()] =~= q.history + vs);
    } else {
        assert(q.history + vs =~= q.history);
    }
}

/// A strong observer that has seen everything lets `capacity - 1` values be sent before it holds
/// senders back: on a queue without receivers whose attached strong observers are all at the
/// tail, each of up to `capacity - 1` sends in a row has room, and the next one is refused when
/// an observer is attached.
pub proof fn law_caught_up_observer_admits_capacity_minus_one<T>(q: QueueState<T>, vs: Seq<T>)
    requires
        q.valid(),
        q.receivers == 0,
        forall|k: int| #[trigger] q.observer_attached(k) ==> q.observers[k]->0 == q.tail(),
        vs.len() <= q.capacity - 1,
    ensures
        forall|i: int| 0 <= i < vs.len() ==> !(#[trigger] sent_all(q, vs.take(i))).send_blocked(),
        sent_all(q, vs).history == q.history + vs,
        vs.len() == q.capacity - 1 && (exists|k: int| q.observer_attached(k)) ==> sent_all(
            q,
            vs,
        ).send_blocked(),
{
    assert forall|i: int| 0 <= i < vs.len() implies !(#[trigger] sent_all(
        q,
        vs.take(i),
    )).send_blocked() by {
        let p = sent_all(q, vs.take(i));
        lemma_sent_all_shape(q, vs.take(i));
        assert(p.tail() == q.tail() + i);
        if p.send_blocked() {
            let k = choose|k: int| 0 <= k < p.observers.len() && #[trigger] p.blocked_by_observer(k);
            assert(q.observer_attached(k));
        }
    }
    lemma_sent_all_shape(q, vs);
    if vs.len() == q.capacity - 1 && (exists|k: int| q.observer_attached(k)) {
        let k = choose|k: int| q.observer_attached(k);
        assert(sent_all(q, vs).blocked_by_observer(k));
    }
}

/// The rows a range observation reads are exactly the rows of `[start, end)` that the buffer
/// still holds, consecutive from `range_lo(start)`: no row before `start`, at or after `end`, or
/// outside the window, and every held row of the range.
pub proof fn law_range_reads_held_rows_of_range<T>(q: QueueState<T>, start: int, end: int)
    ensures
        forall|i: int| #![trigger q.in_window(i)]
            q.range_lo(start) <= i < q.range_lo(start) + q.range_len(start, end) ==> start <= i
                < end && q.in_window(i),
        forall|i: int| #![trigger q.in_window(i)]
            start <= i < end && q.in_window(i) ==> q.range_lo(start) <= i < q.range_lo(start)
                + q.range_len(start, end),
        0 <= q.range_len(start, end),
        start <= end ==> q.range_len(start, end) <= end - start,
        end <= start ==> q.range_len(start, end) == 0,
{
}

/// The buffer holds the most recent `capacity` rows: row `i` can still be read exactly when it
/// has been sent and fewer than `capacity` rows were sent after it; the oldest held row is
/// `capacity` rows before the tail, or row 0 while fewer were sent.
pub proof fn law_window_is_last_capacity_rows<T>(q: QueueState<T>, i: int)
    ensures
        q.in_window(i) <==> 0 <= i < q.tail() && q.tail() - i <= q.capacity,
        q.oldest() == if q.tail() <= q.capacity { 0 } else { q.tail() - q.capacity },
        q.tail() > 0 ==> (q.in_window(q.tail() - 1) <==> q.capacity > 0),
{
}

} // verus!
