//! Prefetching policies that watch the reads of a block cache and ask it to prefetch blocks.
//!
//! Each policy is a server whose worker loops: it strong-observes the next read block, decides
//! which block to prefetch, sends that block to the cache's prefetch queue, and stops once the
//! server is shut down. `spawn` makes the server's state and its queue attachments; the
//! decision of each round is `prefetch_target`.

use vstd::prelude::*;
use vstd::arithmetic::div_mod::lemma_fundamental_div_mod;
use vstd::arithmetic::div_mod::lemma_fundamental_div_mod_converse_mod;
use crate::oqueue::error::OQueueAttachError;
use crate::oqueue::error::slots_exhausted_text;
use crate::oqueue::locking::LockingQueue;
use crate::oqueue::locking::LockingSender;
use crate::oqueue::locking::LockingStrongObserver;
use crate::oqueue::locking::LockingWeakObserver;
use crate::oqueue::locking::ObservableLockingQueue;
use crate::oqueue::locking::observable_queue_name;
use crate::oqueue::table::QueueState;
use crate::oqueue::laws::law_observer_attach_detach_roundtrip;
use crate::orpc_impl::errors::RPCError;
use crate::prefetcher_demo::shutdown::Shutdown;
use crate::prefetcher_demo::shutdown::ShutdownError;
use crate::prefetcher_demo::shutdown::ShutdownState;

verus! {

/// The outcome of attaching a strong observer to the read observations `before`, leaving them
/// `after`: an `AllocationFailed` error when no strong-observer slot is free, else the last free
/// slot.
pub open spec fn observer_attach_outcome<R>(
    before: QueueState<usize>,
    after: QueueState<usize>,
    r: Result<R, OQueueAttachError>,
    slot_of: spec_fn(R) -> int,
) -> bool {
    &&& before.free.len() == 0 ==> after == before && (r matches Err(
        OQueueAttachError::AllocationFailed { table_type, message },
    ) && table_type@ == observable_queue_name() && message@ == slots_exhausted_text(
        before.observers.len(),
    ))
    &&& before.free.len() > 0 ==> after == before.observer_slot_taken() && (r matches Ok(p)
        && slot_of(p) == before.free.last())
}

/// The stride between two reads: the newer minus the older, negative when the reads go
/// backwards.
pub open spec fn stride_of(reads: Seq<usize>) -> int {
    reads[1] - reads[0]
}

/// The block number `x` wrapped into the range of `usize`: block arithmetic wraps around, so a
/// negative stride gives a backward prefetch.
pub open spec fn wrap(x: int) -> int {
    x % (usize::MAX as int + 1)
}

/// A `usize` value that differs from `x` by a multiple of the width of `usize` is `x` wrapped.
proof fn lemma_wrap(v: int, x: int, k: int)
    requires
        0 <= v <= usize::MAX,
        v == x + k * (usize::MAX as int + 1),
    ensures
        v == wrap(x),
{
    assert(x == (-k) * (usize::MAX as int + 1) + v) by (nonlinear_arith)
        requires
            v == x + k * (usize::MAX as int + 1),
    ;
    lemma_fundamental_div_mod_converse_mod(x, usize::MAX as int + 1, -k, v);
}

/// How many strides ahead to prefetch under a system load of `load` (0 to 255): one stride per
/// 64 units of load below 255, and at least one.
pub open spec fn load_steps(load: int) -> int {
    if (255 - load) / 64 < 1 {
        1
    } else {
        (255 - load) / 64
    }
}

/// The system load that the most recent load sample reports: the last sample, or 0 when there
/// is none.
pub open spec fn current_load(samples: Seq<u8>) -> int {
    if samples.len() == 0 {
        0
    } else {
        samples.last() as int
    }
}

/// The number of strides the load-aware policy prefetches ahead under a load `l` (0 to 255) is
/// the largest number of whole 64-unit steps that fit in the spare capacity `255 - l`, and at
/// least one: e.g. 3 for a load below 64, 2 from 64 to 127, 1 from 128 on.
pub proof fn law_load_steps_are_whole_spare_quarters(l: int)
    requires
        0 <= l <= 255,
    ensures
        1 <= load_steps(l) <= 3,
        load_steps(l) == 1 || 64 * load_steps(l) <= 255 - l,
        255 - l < 64 * (load_steps(l) + 1),
        l < 64 ==> load_steps(l) == 3,
        64 <= l < 128 ==> load_steps(l) == 2,
        128 <= l ==> load_steps(l) == 1,
{
}

/// Block arithmetic wraps around the range of `usize`: a block number in range is kept as it
/// is, and one just below 0 or past `usize::MAX` comes back in from the other end.
pub proof fn law_wrap_keeps_blocks_in_range(x: int)
    ensures
        0 <= wrap(x) <= usize::MAX,
        0 <= x <= usize::MAX ==> wrap(x) == x,
        usize::MAX < x <= 2 * usize::MAX + 1 ==> wrap(x) == x - (usize::MAX + 1),
        -(usize::MAX + 1) <= x < 0 ==> wrap(x) == x + (usize::MAX + 1),
{
    let m = usize::MAX as int + 1;
    if 0 <= x <= usize::MAX {
        lemma_fundamental_div_mod_converse_mod(x, m, 0, x);
    }
    if usize::MAX < x <= 2 * usize::MAX + 1 {
        lemma_fundamental_div_mod_converse_mod(x, m, 1, x - m);
    }
    if -(usize::MAX + 1) <= x < 0 {
        lemma_fundamental_div_mod_converse_mod(x, m, -1, x + m);
    }
    lemma_fundamental_div_mod(x, m);
}

/// The prefetch targets follow the reads: the next page is the block after the one read; the
/// stride is the newer read minus the older one, so a stride policy prefetches the block that
/// many blocks past the one read (backwards for a falling pair), scaled by the load steps for
/// the load-aware policy; and the load that counts is the most recent sample, 0 when there is
/// none.
pub proof fn law_prefetch_targets_follow_reads(
    block: int,
    older: usize,
    newer: usize,
    steps: int,
    samples: Seq<u8>,
    x: u8,
)
    requires
        0 <= block <= usize::MAX,
    ensures
        block < usize::MAX ==> wrap(block + 1) == block + 1,
        block == usize::MAX ==> wrap(block + 1) == 0,
        stride_of(seq![older, newer]) == newer - older,
        0 <= block + (newer - older) <= usize::MAX ==> wrap(block + stride_of(seq![older, newer]))
            == block + newer - older,
        0 <= block + (newer - older) * steps <= usize::MAX ==> wrap(
            block + stride_of(seq![older, newer]) * steps,
        ) == block + (newer - older) * steps,
        current_load(samples.push(x)) == x,
        current_load(Seq::<u8>::empty()) == 0,
{
    law_wrap_keeps_blocks_in_range(block + 1);
    law_wrap_keeps_blocks_in_range(block + (newer - older));
    law_wrap_keeps_blocks_in_range(block + (newer - older) * steps);
}

/// A policy which always prefetches the page after the one read.
pub struct NextPagePrefetcher {
    shutdown: ShutdownState,
}

/// A policy which prefetches one stride ahead, the stride being the difference between the two
/// most recent reads.
pub struct StridePrefetcher {
    shutdown: ShutdownState,
}

/// A stride policy which prefetches further ahead when the system load is lower.
pub struct StrideLoadAwarePrefetcher {
    shutdown: ShutdownState,
}

/// Why a load-aware prefetcher could not be set up.
pub enum LoadAwareSpawnError {
    /// Attaching to one of the queues failed.
    Attach(OQueueAttachError),
    /// Nothing is registered under the name of the system-load queue.
    Unregistered { message: String },
}

/// The text of the error for a missing system-load queue.
pub open spec fn unregistered_text() -> Seq<char> {
    "Unwrapped None"@
}

fn unregistered_message() -> (r: String)
    ensures
        r@ == unregistered_text(),
{
    let text = "Unwrapped None";
    proof {
        reveal_strlit("Unwrapped None");
    }
    text.to_owned()
}

impl NextPagePrefetcher {
    /// Whether the server has been shut down.
    pub closed spec fn is_shut_down(&self) -> bool {
        self.shutdown.is_shut_down()
    }

    /// Set up the server: a running state, a strong observer of the cache's reads, and a sender
    /// to the cache's prefetch queue.
    pub fn spawn(
        read_observations: &mut ObservableLockingQueue<usize>,
        prefetch_requests: &LockingQueue<usize>,
    ) -> (r: Result<(Self, LockingStrongObserver, LockingSender), OQueueAttachError>)
        requires
            old(read_observations).wf(),
        ensures
            final(read_observations).wf(),
            observer_attach_outcome(
                old(read_observations)@,
                final(read_observations)@,
                r,
                |p: (Self, LockingStrongObserver, LockingSender)| p.1.slot(),
            ),
            r matches Ok(p) ==> !p.0.is_shut_down(),
    {
        let read_observer = match read_observations.attach_strong_observer() {
            Ok(o) => o,
            Err(e) => {
                return Err(e);
            },
        };
        let prefetch_sender = match prefetch_requests.attach_sender() {
            Ok(s) => s,
            Err(e) => {
                return Err(e);
            },
        };
        Ok((NextPagePrefetcher { shutdown: ShutdownState::new() }, read_observer, prefetch_sender))
    }

    /// The block to prefetch after a read of `block_id`: the next one (wrapping around).
    pub fn prefetch_target(block_id: usize) -> (r: usize)
        ensures
            r == wrap(block_id + 1),
    {
        let r = block_id.wrapping_add(1);
        proof {
            if block_id + 1 > usize::MAX {
                lemma_wrap(r as int, block_id + 1, -1);
            } else {
                lemma_wrap(r as int, block_id + 1, 0);
            }
        }
        r
    }

    /// Check whether the server was shut down; `CleanShutdown` if it was.
    pub fn check_for_shutdown(&self) -> (r: Result<(), ShutdownError>)
        ensures
            r is Ok <==> !self.is_shut_down(),
            r is Err ==> r matches Err(ShutdownError::CleanShutdown),
    {
        self.shutdown.check_for_shutdown()
    }
}

impl Shutdown for NextPagePrefetcher {
    fn shutdown(&mut self) -> (r: Result<(), RPCError>)
        ensures
            r is Ok,
            final(self).is_shut_down(),
    {
        self.shutdown.shutdown()
    }
}

impl StridePrefetcher {
    /// Whether the server has been shut down.
    pub closed spec fn is_shut_down(&self) -> bool {
        self.shutdown.is_shut_down()
    }

    /// Set up the server: a running state, a strong and a weak observer of the cache's reads,
    /// and a sender to the cache's prefetch queue.
    pub fn spawn(
        read_observations: &mut ObservableLockingQueue<usize>,
        prefetch_requests: &LockingQueue<usize>,
    ) -> (r: Result<
        (Self, LockingStrongObserver, LockingWeakObserver, LockingSender),
        OQueueAttachError,
    >)
        requires
            old(read_observations).wf(),
        ensures
            final(read_observations).wf(),
            observer_attach_outcome(
                old(read_observations)@,
                final(read_observations)@,
                r,
                |p: (Self, LockingStrongObserver, LockingWeakObserver, LockingSender)| p.1.slot(),
            ),
            r matches Ok(p) ==> !p.0.is_shut_down() && p.2.max_observed() == 0,
    {
        let strong_observer = match read_observations.attach_strong_observer() {
            Ok(o) => o,
            Err(e) => {
                return Err(e);
            },
        };
        let weak_observer = match read_observations.attach_weak_observer() {
            Ok(o) => o,
            Err(e) => {
                return Err(e);
            },
        };
        let prefetch_sender = match prefetch_requests.attach_sender() {
            Ok(s) => s,
            Err(e) => {
                return Err(e);
            },
        };
        Ok(
            (
                StridePrefetcher { shutdown: ShutdownState::new() },
                strong_observer,
                weak_observer,
                prefetch_sender,
            ),
        )
    }

    /// The block to prefetch after a read of `block_id`, given the two most recent reads: one
    /// stride ahead of `block_id`, wrapping around (a backward stride prefetches backwards).
    /// Nothing is prefetched unless exactly two reads are known.
    pub fn prefetch_target(block_id: usize, reads: &Vec<usize>) -> (r: Option<usize>)
        ensures
            r == if reads@.len() == 2 {
                Some(wrap(block_id + stride_of(reads@)) as usize)
            } else {
                None
            },
    {
        if reads.len() == 2 {
            let stride = reads[1].wrapping_sub(reads[0]);
            let target = block_id.wrapping_add(stride);
            proof {
                let m = usize::MAX as int + 1;
                let e1: int = if reads@[1] - reads@[0] < 0 { 1 } else { 0 };
                let e2: int = if block_id + stride > usize::MAX { 1 } else { 0 };
                assert(stride == reads@[1] - reads@[0] + e1 * m);
                assert(target == block_id + stride - e2 * m);
                lemma_wrap(target as int, block_id + stride_of(reads@), e1 - e2);
            }
            Some(target)
        } else {
            None
        }
    }

    /// Check whether the server was shut down; `CleanShutdown` if it was.
    pub fn check_for_shutdown(&self) -> (r: Result<(), ShutdownError>)
        ensures
            r is Ok <==> !self.is_shut_down(),
            r is Err ==> r matches Err(ShutdownError::CleanShutdown),
    {
        self.shutdown.check_for_shutdown()
    }
}

impl Shutdown for StridePrefetcher {
    fn shutdown(&mut self) -> (r: Result<(), RPCError>)
        ensures
            r is Ok,
            final(self).is_shut_down(),
    {
        self.shutdown.shutdown()
    }
}

impl StrideLoadAwarePrefetcher {
    /// Whether the server has been shut down.
    pub closed spec fn is_shut_down(&self) -> bool {
        self.shutdown.is_shut_down()
    }

    /// Set up the server: a running state, a strong and a weak observer of the cache's reads, a
    /// sender to the cache's prefetch queue, and a weak observer of the system-load queue.
    /// `system_load` is what the registry holds under the system-load queue's name. When nothing
    /// is registered there, the setup fails with `Unregistered` after the other attachments, and
    /// the strong-observer slot it took on the reads is freed again.
    pub fn spawn(
        read_observations: &mut ObservableLockingQueue<usize>,
        prefetch_requests: &LockingQueue<usize>,
        system_load: Option<&ObservableLockingQueue<u8>>,
    ) -> (r: Result<
        (Self, LockingStrongObserver, LockingWeakObserver, LockingSender, LockingWeakObserver),
        LoadAwareSpawnError,
    >)
        requires
            old(read_observations).wf(),
        ensures
            final(read_observations).wf(),
            old(read_observations)@.free.len() == 0 ==> final(read_observations)@ == old(read_observations)@,
            old(read_observations)@.free.len() == 0 ==> (r matches Err(
                LoadAwareSpawnError::Attach(
                    OQueueAttachError::AllocationFailed { table_type, message },
                ),
            ) && table_type@ == observable_queue_name() && message@ == slots_exhausted_text(
                old(read_observations)@.observers.len(),
            )),
            old(read_observations)@.free.len() > 0 && system_load is None ==> final(read_observations)@ == old(read_observations)@,
            old(read_observations)@.free.len() > 0 && system_load is None ==> (r matches Err(
                LoadAwareSpawnError::Unregistered { message },
            ) && message@ == unregistered_text()),
            old(read_observations)@.free.len() > 0 && system_load is Some ==> final(read_observations)@ == old(read_observations)@.observer_slot_taken(),
            old(read_observations)@.free.len() > 0 && system_load is Some ==> (r matches Ok(p)
                && p.1.slot() == old(read_observations)@.free.last() && !p.0.is_shut_down()
                && p.2.max_observed() == 0 && p.4.max_observed() == 0),
    {
        let ghost pre = read_observations@;
        proof {
            read_observations.lemma_valid();
        }
        let strong_observer = match read_observations.attach_strong_observer() {
            Ok(o) => o,
            Err(e) => {
                return Err(LoadAwareSpawnError::Attach(e));
            },
        };
        let weak_observer = match read_observations.attach_weak_observer() {
            Ok(o) => o,
            Err(e) => {
                return Err(LoadAwareSpawnError::Attach(e));
            },
        };
        let prefetch_sender = match prefetch_requests.attach_sender() {
            Ok(s) => s,
            Err(e) => {
                return Err(LoadAwareSpawnError::Attach(e));
            },
        };
        let load_queue = match system_load {
            Some(q) => q,
            None => {
                proof {
                    assert(pre.free[pre.free.len() - 1] < pre.observers.len());
                    law_observer_attach_detach_roundtrip(pre);
                }
                read_observations.drop_strong_observer(strong_observer);
                return Err(LoadAwareSpawnError::Unregistered { message: unregistered_message() });
            },
        };
        let system_load_observer = match load_queue.attach_weak_observer() {
            Ok(o) => o,
            Err(e) => {
                return Err(LoadAwareSpawnError::Attach(e));
            },
        };
        Ok(
            (
                StrideLoadAwarePrefetcher { shutdown: ShutdownState::new() },
                strong_observer,
                weak_observer,
                prefetch_sender,
                system_load_observer,
            ),
        )
    }

    /// The block to prefetch after a read of `block_id`, given the two most recent reads and the
    /// most recent system-load sample (`load_samples` holds at most the last one): the stride
    /// times `load_steps` of the load ahead of `block_id`, wrapping around (a backward stride
    /// prefetches backwards). Nothing is prefetched unless exactly two reads are known.
    pub fn prefetch_target(block_id: usize, reads: &Vec<usize>, load_samples: &Vec<u8>) -> (r:
        Option<usize>)
        ensures
            r == if reads@.len() == 2 {
                Some(
                    wrap(
                        block_id + stride_of(reads@) * load_steps(current_load(load_samples@)),
                    ) as usize,
                )
            } else {
                None
            },
    {
        if reads.len() == 2 {
            let steps = Self::steps_for_load(load_samples);
            let stride = reads[1].wrapping_sub(reads[0]);
            let scaled = stride.wrapping_mul(steps);
            let target = block_id.wrapping_add(scaled);
            proof {
                let m = usize::MAX as int + 1;
                let d = stride_of(reads@);
                let e1: int = if d < 0 { 1 } else { 0 };
                let e2: int = if block_id + scaled > usize::MAX { 1 } else { 0 };
                assert(stride == d + e1 * m);
                lemma_fundamental_div_mod(stride * steps, m);
                let q = (stride * steps) / m;
                assert(scaled == stride * steps - q * m) by (nonlinear_arith)
                    requires
                        scaled == (stride as nat * steps as nat) % (m as nat),
                        stride * steps == m * q + (stride * steps) % m,
                        m > 0,
                ;
                assert(target == block_id + scaled - e2 * m);
                assert(stride * steps == d * steps + (e1 * steps) * m) by (nonlinear_arith)
                    requires
                        stride == d + e1 * m,
                ;
                assert(target == block_id + d * steps + (e1 * steps - q - e2) * m) by (nonlinear_arith)
                    requires
                        target == block_id + scaled - e2 * m,
                        scaled == stride * steps - q * m,
                        stride * steps == d * steps + (e1 * steps) * m,
                ;
                lemma_wrap(target as int, block_id + d * steps, e1 * steps - q - e2);
            }
            Some(target)
        } else {
            None
        }
    }

    /// How many strides ahead to prefetch, given the most recent system-load sample
    /// (`load_samples` holds at most the last one; none counts as load 0).
    pub fn steps_for_load(load_samples: &Vec<u8>) -> (r: usize)
        ensures
            r == load_steps(current_load(load_samples@)),
            1 <= r <= 3,
    {
        let system_load: usize = if load_samples.len() == 0 {
            0
        } else {
            load_samples[load_samples.len() - 1] as usize
        };
        let quarter: usize = (255 - system_load) / 64;
        if quarter < 1 {
            1
        } else {
            quarter
        }
    }

    /// Check whether the server was shut down; `CleanShutdown` if it was.
    pub fn check_for_shutdown(&self) -> (r: Result<(), ShutdownError>)
        ensures
            r is Ok <==> !self.is_shut_down(),
            r is Err ==> r matches Err(ShutdownError::CleanShutdown),
    {
        self.shutdown.check_for_shutdown()
    }
}

impl Shutdown for StrideLoadAwarePrefetcher {
    fn shutdown(&mut self) -> (r: Result<(), RPCError>)
        ensures
            r is Ok,
            final(self).is_shut_down(),
    {
        self.shutdown.shutdown()
    }
}

} // verus!
