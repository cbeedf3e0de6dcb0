//! The decisions of the block cache server: what it keeps, what it evicts, and how it answers
//! read requests and read replies.

use vstd::prelude::*;
use crate::prefetcher_demo::block_device::Block;
use crate::prefetcher_demo::block_map::BlockMap;
use crate::prefetcher_demo::block_map::is_least_key;

verus! {

/// The cached blocks after block `block_id` with data `data` was offered to a cache holding `m`:
/// a block that is already cached keeps its data.
pub open spec fn with_block<D>(m: Map<usize, D>, block_id: usize, data: D) -> Map<usize, D> {
    if m.contains_key(block_id) {
        m
    } else {
        m.insert(block_id, data)
    }
}

/// The number of cached blocks after a block was offered to a cache holding `count` blocks,
/// `contains` telling whether it was cached already, and keeping `size` blocks.
pub open spec fn count_after_insert(count: nat, contains: bool, size: nat) -> nat {
    let grown = if contains {
        count
    } else {
        count + 1
    };
    if grown > size {
        (grown - 1) as nat
    } else {
        grown
    }
}

/// A cache holding at most its size still does so after a block is offered to it, and a
/// cache that is full stays full.
pub proof fn law_cache_stays_within_size(count: nat, contains: bool, size: nat)
    requires
        count <= size,
    ensures
        count_after_insert(count, contains, size) <= size,
        count == size ==> count_after_insert(count, contains, size) == size,
{
}

/// The cache `after` holds what a cache `before` (holding `count` blocks, keeping `size`) holds
/// once block `block_id` with data `data` was offered: a copy of the data is added unless the
/// block was cached already, and when that makes one block too many, the block with the least
/// number is evicted and reported in `evicted`.
pub open spec fn cached_after_insert<D: Clone>(
    before: Map<usize, D>,
    count: nat,
    size: nat,
    block_id: usize,
    data: D,
    after: Map<usize, D>,
    evicted: Option<usize>,
) -> bool {
    let grown = if before.contains_key(block_id) {
        count
    } else {
        count + 1
    };
    exists|x: D|
        #![trigger cloned(data, x)]
        cloned(data, x) && ({
            let m = with_block(before, block_id, x);
            if grown > size {
                evicted is Some && is_least_key(m, evicted->0) && after == m.remove(evicted->0)
            } else {
                evicted is None && after == m
            }
        })
}

/// The contents of a block cache: at most `cache_size` blocks once an insertion completes,
/// evicting the block with the least number when one too many is held.
pub struct Cache<D> {
    cache: BlockMap<D>,
    cache_size: usize,
}

/// The readers waiting for blocks that were requested from the underlying device.
pub struct OutstandingRequests<W> {
    waiting: BlockMap<Vec<W>>,
}

/// What the cache does with a read request.
pub enum RequestAction<D, W> {
    /// Reply to the requester at once with the cached block.
    Reply { reply_to: W, block: Block<D> },
    /// The requester waits for the block; `underlying_request` is the block to request from the
    /// underlying device, if one must be requested.
    Pending { underlying_request: Option<usize> },
}

impl<D> Cache<D> {
    /// The cached blocks.
    pub closed spec fn view(&self) -> Map<usize, D> {
        self.cache@
    }

    /// The number of cached blocks.
    pub open spec fn count(&self) -> nat {
        self@.len()
    }

    /// The number of blocks the cache keeps.
    pub closed spec fn size(&self) -> nat {
        self.cache_size as nat
    }

    /// The cache's state is consistent.
    pub closed spec fn wf(&self) -> bool {
        self.cache.wf()
    }

    /// An empty cache that keeps `cache_size` blocks.
    pub fn new(cache_size: usize) -> (r: Self)
        ensures
            r.wf(),
            r@ == Map::<usize, D>::empty(),
            r.count() == 0,
            r.size() == cache_size,
    {
        Cache { cache: BlockMap::new(), cache_size }
    }

    /// A copy of the cached data of block `block_id`, if it is cached.
    pub fn get(&self, block_id: usize) -> (r: Option<D>)
        where
            D: Clone,
        requires
            self.wf(),
        ensures
            r is None <==> !self@.contains_key(block_id),
            r is Some ==> cloned(self@[block_id], r->0),
    {
        match self.cache.get(block_id) {
            None => None,
            Some(data) => Some(data.clone()),
        }
    }

    /// Cache a block that was read. A block that is already cached keeps its data; otherwise a
    /// copy of `block.data` is cached. When that makes one block too many, the block with the
    /// least number is evicted (which may be the block just inserted).
    pub fn insert_cached_block(&mut self, block: &Block<D>) -> (evicted: Option<usize>)
        where
            D: Clone,
        requires
            old(self).wf(),
        ensures
            final(self).wf(),
            final(self).size() == old(self).size(),
            final(self).count() == count_after_insert(
                old(self).count(),
                old(self)@.contains_key(block.block_id),
                old(self).size(),
            ),
            cached_after_insert(
                old(self)@,
                old(self).count(),
                old(self).size(),
                block.block_id,
                block.data,
                final(self)@,
                evicted,
            ),
    {
        let ghost pre = self@;
        let ghost x: D;
        if !self.cache.contains_key(block.block_id) {
            let data = block.data.clone();
            proof {
                x = data;
            }
            self.cache.insert_new(block.block_id, data);
        } else {
            proof {
                x = block.data;
            }
        }
        assert(cloned(block.data, x));
        let ghost m = self@;
        assert(m == with_block(pre, block.block_id, x));
        assert(m.contains_key(block.block_id));
        if self.cache.len() > self.cache_size {
            let k = self.cache.least_key();
            self.cache.remove(k);
            Some(k)
        } else {
            None
        }
    }

    /// Whether block `block_id` must be requested from the underlying device: only when no
    /// reader is already waiting for it. Returns the block to request.
    pub fn send_underlying_request<W>(
        &self,
        outstanding_requests: &OutstandingRequests<W>,
        block_id: usize,
    ) -> (r: Option<usize>)
        requires
            outstanding_requests.wf(),
        ensures
            r == if outstanding_requests@.contains_key(block_id) {
                None
            } else {
                Some(block_id)
            },
    {
        if !outstanding_requests.waiting.contains_key(block_id) {
            Some(block_id)
        } else {
            None
        }
    }

    /// Answer a read request for block `block_id` from `reply_to`: with the cached block on a hit.
    /// On a miss, the block is requested from the underlying device unless a reader already waits
    /// for it (its reply will serve both), and the requester joins the readers waiting for it.
    pub fn handle_request<W>(
        &self,
        outstanding_requests: &mut OutstandingRequests<W>,
        block_id: usize,
        reply_to: W,
    ) -> (r: RequestAction<D, W>)
        where
            D: Clone,
        requires
            self.wf(),
            old(outstanding_requests).wf(),
        ensures
            final(outstanding_requests).wf(),
            self@.contains_key(block_id) ==> final(outstanding_requests)@ == old(
                outstanding_requests,
            )@ && (r matches RequestAction::Reply { reply_to: to, block } && to == reply_to
                && block.block_id == block_id && cloned(self@[block_id], block.data)),
            !self@.contains_key(block_id) ==> final(outstanding_requests)@ == old(
                outstanding_requests,
            )@.insert(block_id, old(outstanding_requests).waiters_for(block_id).push(reply_to)),
            !self@.contains_key(block_id) ==> (r matches RequestAction::Pending {
                underlying_request,
            } && underlying_request == if old(outstanding_requests)@.contains_key(block_id) {
                None
            } else {
                Some(block_id)
            }),
    {
        match self.get(block_id) {
            Some(data) => RequestAction::Reply { reply_to, block: Block { block_id, data } },
            None => {
                let underlying_request = self.send_underlying_request(
                    outstanding_requests,
                    block_id,
                );
                outstanding_requests.push_waiter(block_id, reply_to);
                RequestAction::Pending { underlying_request }
            },
        }
    }

    /// Handle a block read by the underlying device: cache it, and hand back the readers that
    /// were waiting for it, in the order they asked, so that each gets a copy, together with the
    /// block that caching it evicted, if any.
    pub fn handle_reply<W>(
        &mut self,
        block: &Block<D>,
        outstanding_requests: &mut OutstandingRequests<W>,
    ) -> (r: (Vec<W>, Option<usize>))
        where
            D: Clone,
        requires
            old(self).wf(),
            old(outstanding_requests).wf(),
        ensures
            final(self).wf(),
            final(outstanding_requests).wf(),
            final(self).size() == old(self).size(),
            final(self).count() == count_after_insert(
                old(self).count(),
                old(self)@.contains_key(block.block_id),
                old(self).size(),
            ),
            cached_after_insert(
                old(self)@,
                old(self).count(),
                old(self).size(),
                block.block_id,
                block.data,
                final(self)@,
                r.1,
            ),
            r.0@ == old(outstanding_requests).waiters_for(block.block_id),
            final(outstanding_requests)@ == old(outstanding_requests)@.remove(block.block_id),
    {
        let evicted = self.insert_cached_block(block);
        let waiters = match outstanding_requests.waiting.remove(block.block_id) {
            Some(waiters) => waiters,
            None => Vec::new(),
        };
        (waiters, evicted)
    }
}

impl<W> OutstandingRequests<W> {
    /// For each block, the readers waiting for it, in the order they asked.
    pub closed spec fn view(&self) -> Map<usize, Seq<W>> {
        self.waiting@.map_values(|v: Vec<W>| v@)
    }

    /// The readers waiting for block `block_id` (none if no entry exists).
    pub open spec fn waiters_for(&self, block_id: usize) -> Seq<W> {
        if self@.contains_key(block_id) {
            self@[block_id]
        } else {
            Seq::empty()
        }
    }

    /// The state is consistent.
    pub closed spec fn wf(&self) -> bool {
        self.waiting.wf()
    }

    /// No reader waits for any block.
    pub fn new() -> (r: Self)
        ensures
            r.wf(),
            r@ == Map::<usize, Seq<W>>::empty(),
    {
        let r = OutstandingRequests { waiting: BlockMap::new() };
        assert(r@ =~= Map::<usize, Seq<W>>::empty());
        r
    }

    /// Whether some reader waits for block `block_id`.
    pub fn contains_key(&self, block_id: usize) -> (r: bool)
        requires
            self.wf(),
        ensures
            r == self@.contains_key(block_id),
    {
        self.waiting.contains_key(block_id)
    }

    /// Add `waiter` to the readers waiting for block `block_id`.
    pub fn push_waiter(&mut self, block_id: usize, waiter: W)
        requires
            old(self).wf(),
        ensures
            final(self).wf(),
            final(self)@ == old(self)@.insert(block_id, old(self).waiters_for(block_id).push(waiter)),
    {
        let ghost pre = self@;
        let mut waiting = match self.waiting.remove(block_id) {
            Some(v) => v,
            None => Vec::new(),
        };
        assert(waiting@ == old(self).waiters_for(block_id));
        waiting.push(waiter);
        self.waiting.insert_new(block_id, waiting);
        assert(self@ =~= pre.insert(block_id, old(self).waiters_for(block_id).push(waiter)));
    }
}

} // verus!
