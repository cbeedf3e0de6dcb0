//! Eviction policies: which cached block to give up next.

use vstd::prelude::*;
use std::collections::VecDeque;
use rand::Rng;
use rand::rngs::ThreadRng;
use crate::oqueue::locking::LockingQueue;
use crate::oqueue::locking::LockingReceiver;
use crate::oqueue::table::QueueState;
use crate::prefetcher_demo::block_device::IOError;

verus! {

/// The capacity of the queue on which a policy learns about inserted blocks.
pub const INSERTION_QUEUE_SIZE: usize = 16;

/// The message of the error returned when there is no block to evict.
pub open spec fn no_victim_message() -> Seq<char> {
    "No block to evict"@
}

fn no_victim_error() -> (r: IOError)
    ensures
        r matches IOError::IOFailure { message } && message@ == no_victim_message(),
{
    let text = "No block to evict";
    proof {
        reveal_strlit("No block to evict");
    }
    IOError::IOFailure { message: text.to_owned() }
}

/// The queue state of a fresh insertion queue with one receiver (the policy's worker) attached.
pub open spec fn insertion_queue_ready(q: QueueState<usize>) -> bool {
    &&& q.history == Seq::<usize>::empty()
    &&& q.capacity == INSERTION_QUEUE_SIZE
    &&& q.receivers == 1
    &&& q.head == 0
    &&& q.observers == Seq::<Option<int>>::empty()
    &&& q.free == Seq::<usize>::empty()
}

/// Evicts the block that was inserted first among those still cached.
pub struct LeastRecentlyUsed {
    blocks_in_cache: VecDeque<usize>,
}

impl View for LeastRecentlyUsed {
    type V = Seq<usize>;

    /// The cached blocks, in the order they were inserted.
    closed spec fn view(&self) -> Seq<usize> {
        self.blocks_in_cache@
    }
}

impl LeastRecentlyUsed {
    /// Build the policy's starting state: no cached block, and an insertion queue with the
    /// receiver that the policy's worker drains attached. The caller runs that worker, feeding
    /// each received block id to [`LeastRecentlyUsed::record_insertion`].
    pub fn spawn() -> (r: (Self, LockingQueue<usize>, LockingReceiver))
        ensures
            r.0@ == Seq::<usize>::empty(),
            r.1.wf(),
            insertion_queue_ready(r.1@),
    {
        let mut insertion_oqueue = LockingQueue::new(INSERTION_QUEUE_SIZE);
        let receiver = insertion_oqueue.attach_receiver().unwrap();
        (LeastRecentlyUsed { blocks_in_cache: VecDeque::new() }, insertion_oqueue, receiver)
    }

    /// Note that a block was inserted into the cache.
    pub fn record_insertion(&mut self, block_id: usize)
        ensures
            final(self)@ == old(self)@.push(block_id),
    {
        self.blocks_in_cache.push_back(block_id);
    }

    /// Choose the block to evict: the earliest inserted one, which is forgotten. Fails when no
    /// block is known.
    pub fn select_victim(&mut self) -> (r: Result<usize, IOError>)
        ensures
            old(self)@.len() == 0 ==> final(self)@ == old(self)@ && (r matches Err(
                IOError::IOFailure { message },
            ) && message@ == no_victim_message()),
            old(self)@.len() > 0 ==> r == Ok::<usize, IOError>(old(self)@[0]) && final(self)@
                == old(self)@.drop_first(),
    {
        match self.blocks_in_cache.pop_front() {
            Some(victim_id) => Ok(victim_id),
            None => Err(no_victim_error()),
        }
    }
}

/// Evicts a cached block chosen at random.
pub struct Random {
    blocks_in_cache: Vec<usize>,
}

impl View for Random {
    type V = Seq<usize>;

    /// The cached blocks.
    closed spec fn view(&self) -> Seq<usize> {
        self.blocks_in_cache@
    }
}

/// Calls rand's `Rng::random_range` with the range `0..len` on the thread-local generator
/// (`ThreadRng::default()`). rand documents that the sample lies in the half-open range and that
/// an empty range panics, which `len > 0` rules out. Which index comes out is left open: it is
/// random.
#[verifier::external_body]
fn random_index(len: usize) -> (r: usize)
    requires
        len > 0,
    ensures
        r < len,
{
    ThreadRng::default().random_range(0..len)
}

/// Remove the element at position `i`, moving the last element into its place.
pub fn remove_at<T>(v: &mut Vec<T>, i: usize) -> (r: T)
    requires
        i < old(v)@.len(),
    ensures
        r == old(v)@[i as int],
        final(v)@ == old(v)@.update(i as int, old(v)@.last()).drop_last(),
{
    v.swap_remove(i)
}

/// Remove an element at a position drawn at random from the whole vector, moving the last
/// element into its place; `None` when `v` is empty.
pub fn remove_random<T>(v: &mut Vec<T>) -> (r: Option<T>)
    ensures
        old(v)@.len() == 0 ==> r is None && final(v)@ == old(v)@,
        old(v)@.len() > 0 ==> exists|i: int|
            0 <= i < old(v)@.len() && r == Some(old(v)@[i]) && final(v)@ == old(v)@.update(
                i,
                old(v)@.last(),
            ).drop_last(),
{
    if v.len() == 0 {
        None
    } else {
        let index = random_index(v.len());
        Some(remove_at(v, index))
    }
}

impl Random {
    /// Build the policy's starting state: no cached block, and an insertion queue with the
    /// receiver that the policy's worker drains attached. The caller runs that worker, feeding
    /// each received block id to [`Random::record_insertion`].
    pub fn spawn() -> (r: (Self, LockingQueue<usize>, LockingReceiver))
        ensures
            r.0@ == Seq::<usize>::empty(),
            r.1.wf(),
            insertion_queue_ready(r.1@),
    {
        let mut insertion_oqueue = LockingQueue::new(INSERTION_QUEUE_SIZE);
        let receiver = insertion_oqueue.attach_receiver().unwrap();
        (Random { blocks_in_cache: Vec::new() }, insertion_oqueue, receiver)
    }

    /// Note that a block was inserted into the cache.
    pub fn record_insertion(&mut self, block_id: usize)
        ensures
            final(self)@ == old(self)@.push(block_id),
    {
        self.blocks_in_cache.push(block_id);
    }

    /// Choose a cached block at random to evict; it is forgotten. Fails when no block is known.
    pub fn select_victim(&mut self) -> (r: Result<usize, IOError>)
        ensures
            old(self)@.len() == 0 ==> final(self)@ == old(self)@ && (r matches Err(
                IOError::IOFailure { message },
            ) && message@ == no_victim_message()),
            old(self)@.len() > 0 ==> exists|i: int|
                0 <= i < old(self)@.len() && r == Ok::<usize, IOError>(old(self)@[i]) && final(self)@ == old(self)@.update(i, old(self)@.last()).drop_last(),
    {
        match remove_random(&mut self.blocks_in_cache) {
            Some(victim_id) => Ok(victim_id),
            None => Err(no_victim_error()),
        }
    }
}

} // verus!
