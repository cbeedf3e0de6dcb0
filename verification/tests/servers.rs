use orpc::prefetcher_demo::simulation::simulated_read_block;
use orpc::oqueue::registry::{lookup, register, Registry};
use orpc::orpc_impl::errors::RPCError;
use orpc::orpc_impl::framework::ServerBase;
use orpc::prefetcher_demo::block_device::{Block, IOError};
use orpc::prefetcher_demo::block_map::BlockMap;
use orpc::prefetcher_demo::cache::{Cache, OutstandingRequests, RequestAction};
use orpc::prefetcher_demo::eviction_policy::{remove_at, remove_random, LeastRecentlyUsed, Random};
use orpc::prefetcher_demo::prefetch_policy::{
    LoadAwareSpawnError, NextPagePrefetcher, StrideLoadAwarePrefetcher, StridePrefetcher,
};
use orpc::prefetcher_demo::shutdown::{Shutdown, ShutdownError, ShutdownState};
use orpc::oqueue::locking::{LockingQueue, ObservableLockingQueue};
use orpc::oqueue::error::OQueueAttachError;
use orpc::sync::blocker::TaskList;

#[test]
fn from_panic_keeps_string_payloads() {
    match RPCError::from_panic(Some("Asked to panic")) {
        RPCError::Panic { message } => assert_eq!(message, "Asked to panic"),
        _ => panic!("expected a panic error"),
    }
    match RPCError::from_panic(None) {
        RPCError::Panic { message } => assert_eq!(message, "Non-string panic payload"),
        _ => panic!("expected a panic error"),
    }
}

#[test]
fn panicked_server_refuses_later_calls() {
    let mut base = ServerBase::new();
    assert!(base.begin_call().is_ok());
    let r: Result<usize, RPCError> = base.finish_call(Ok(3));
    assert!(matches!(r, Ok(3)));
    assert!(!base.is_aborted());
    let r: Result<usize, RPCError> = base.finish_call(Err(Some("Asked to panic")));
    assert!(matches!(r, Err(RPCError::Panic { .. })));
    assert!(base.is_aborted());
    assert!(matches!(base.begin_call(), Err(RPCError::ServerMissing)));
    assert!(matches!(base.begin_call(), Err(RPCError::ServerMissing)));
}

#[test]
fn registry_finds_registered_values() {
    let mut registry: Registry<u8> = Registry::new();
    assert_eq!(lookup(&registry, "system_load"), None);
    register(&mut registry, "system_load", 128);
    register(&mut registry, "other", 7);
    assert_eq!(lookup(&registry, "system_load"), Some(128));
    register(&mut registry, "system_load", 200);
    assert_eq!(lookup(&registry, "system_load"), Some(200));
    assert_eq!(lookup(&registry, "other"), Some(7));
    assert_eq!(lookup(&registry, "missing"), None);
}

#[test]
fn task_list_lists_each_task_once() {
    let mut list: TaskList<&str> = TaskList::default();
    list.add_task(1, "a");
    list.add_task(2, "b");
    list.add_task(1, "a again");
    list.remove_task(3);
    assert_eq!(list.wake_all(), vec![(1, "a"), (2, "b")]);
    assert_eq!(list.wake_all(), vec![]);
    list.add_task(1, "a");
    list.add_task(2, "b");
    list.remove_task(1);
    assert_eq!(list.wake_all(), vec![(2, "b")]);
}

#[test]
fn shutdown_is_reported_after_shutdown() {
    let mut state = ShutdownState::default();
    assert!(state.check_for_shutdown().is_ok());
    assert!(state.shutdown().is_ok());
    assert!(matches!(state.check_for_shutdown(), Err(ShutdownError::CleanShutdown)));
}

#[test]
fn cache_evicts_least_block_number() {
    let mut cache: Cache<u32> = Cache::new(2);
    assert_eq!(cache.insert_cached_block(&Block { block_id: 5, data: 50 }), None);
    assert_eq!(cache.insert_cached_block(&Block { block_id: 3, data: 30 }), None);
    assert_eq!(cache.insert_cached_block(&Block { block_id: 3, data: 31 }), None);
    assert_eq!(cache.get(3), Some(30));
    assert_eq!(cache.insert_cached_block(&Block { block_id: 9, data: 90 }), Some(3));
    assert_eq!(cache.get(3), None);
    assert_eq!(cache.get(5), Some(50));
    assert_eq!(cache.get(9), Some(90));
    // The new block itself goes when its number is the least.
    assert_eq!(cache.insert_cached_block(&Block { block_id: 1, data: 10 }), Some(1));
    assert_eq!(cache.get(1), None);
    assert_eq!(cache.get(5), Some(50));
}

#[test]
fn cache_request_and_reply() {
    let mut cache: Cache<u32> = Cache::new(4);
    let mut outstanding: OutstandingRequests<&str> = OutstandingRequests::new();
    cache.insert_cached_block(&Block { block_id: 1, data: 10 });
    match cache.handle_request(&mut outstanding, 1, "hit") {
        RequestAction::Reply { reply_to, block } => {
            assert_eq!(reply_to, "hit");
            assert_eq!(block.block_id, 1);
            assert_eq!(block.data, 10);
        }
        _ => panic!("expected a reply"),
    }
    assert!(matches!(
        cache.handle_request(&mut outstanding, 2, "first"),
        RequestAction::Pending { underlying_request: Some(2) }
    ));
    assert!(matches!(
        cache.handle_request(&mut outstanding, 2, "second"),
        RequestAction::Pending { underlying_request: None }
    ));
    assert!(outstanding.contains_key(2));
    assert_eq!(cache.send_underlying_request(&outstanding, 2), None);
    assert_eq!(cache.send_underlying_request(&outstanding, 3), Some(3));
    let (waiters, evicted) = cache.handle_reply(&Block { block_id: 2, data: 20 }, &mut outstanding);
    assert_eq!(waiters, vec!["first", "second"]);
    assert_eq!(evicted, None);
    assert!(!outstanding.contains_key(2));
    assert_eq!(cache.get(2), Some(20));
    assert_eq!(cache.handle_reply(&Block { block_id: 3, data: 30 }, &mut outstanding), (Vec::<&str>::new(), None));
}

#[test]
fn lru_evicts_in_insertion_order() {
    let (mut policy, queue, _receiver) = LeastRecentlyUsed::spawn();
    assert!(queue.can_receive(&_receiver) == false);
    assert!(matches!(policy.select_victim(), Err(IOError::IOFailure { .. })));
    policy.record_insertion(4);
    policy.record_insertion(2);
    policy.record_insertion(7);
    assert_eq!(policy.select_victim().unwrap(), 4);
    assert_eq!(policy.select_victim().unwrap(), 2);
    assert_eq!(policy.select_victim().unwrap(), 7);
    match policy.select_victim() {
        Err(IOError::IOFailure { message }) => assert_eq!(message, "No block to evict"),
        _ => panic!("expected no victim"),
    }
}

#[test]
fn random_eviction_removes_a_cached_block() {
    let (mut policy, _queue, _receiver) = Random::spawn();
    for b in [4, 2, 7] {
        policy.record_insertion(b);
    }
    let mut victims = Vec::new();
    for _ in 0..3 {
        victims.push(policy.select_victim().unwrap());
    }
    victims.sort();
    assert_eq!(victims, vec![2, 4, 7]);
    assert!(policy.select_victim().is_err());

    let mut v = vec![1, 2, 3];
    let x = remove_random(&mut v).unwrap();
    assert_eq!(v.len(), 2);
    assert!(!v.contains(&x));
    let mut empty: Vec<u8> = Vec::new();
    assert_eq!(remove_random(&mut empty), None);

    let mut w = vec![10, 20, 30, 40];
    assert_eq!(remove_at(&mut w, 1), 20);
    assert_eq!(w, vec![10, 40, 30]);
    assert_eq!(remove_at(&mut w, 2), 30);
    assert_eq!(w, vec![10, 40]);
}

#[test]
fn prefetch_targets() {
    assert_eq!(NextPagePrefetcher::prefetch_target(7), 8);
    assert_eq!(NextPagePrefetcher::prefetch_target(usize::MAX), 0);
    // A backward stride prefetches backwards.
    assert_eq!(StridePrefetcher::prefetch_target(10, &vec![1023, 0]), Some(10usize.wrapping_sub(1023)));
    assert_eq!(StridePrefetcher::prefetch_target(2000, &vec![9, 6]), Some(1997));
    assert_eq!(StrideLoadAwarePrefetcher::prefetch_target(100, &vec![9, 6], &vec![0]), Some(91));
    assert_eq!(StridePrefetcher::prefetch_target(10, &vec![3, 6]), Some(13));
    assert_eq!(StridePrefetcher::prefetch_target(10, &vec![6]), None);
    // Load 255 (or none) gives one stride; load 0 gives three.
    assert_eq!(StrideLoadAwarePrefetcher::prefetch_target(10, &vec![3, 5], &vec![255]), Some(12));
    assert_eq!(StrideLoadAwarePrefetcher::prefetch_target(10, &vec![3, 5], &vec![0]), Some(16));
    assert_eq!(StrideLoadAwarePrefetcher::prefetch_target(10, &vec![3, 5], &vec![128]), Some(12));
    assert_eq!(StrideLoadAwarePrefetcher::prefetch_target(10, &vec![3, 5], &vec![]), Some(16));
    assert_eq!(StrideLoadAwarePrefetcher::prefetch_target(10, &vec![3], &vec![0]), None);
}

#[test]
fn prefetchers_attach_and_shut_down() {
    let mut reads: ObservableLockingQueue<usize> = ObservableLockingQueue::new(16, 1);
    let prefetches: LockingQueue<usize> = LockingQueue::new(16);
    let load: ObservableLockingQueue<u8> = ObservableLockingQueue::new(2, 2);
    let (mut next, observer, _sender) = NextPagePrefetcher::spawn(&mut reads, &prefetches).unwrap();
    assert!(next.check_for_shutdown().is_ok());
    // The only strong-observer slot is taken.
    match StridePrefetcher::spawn(&mut reads, &prefetches) {
        Err(OQueueAttachError::AllocationFailed { message, .. }) => {
            assert_eq!(message, "only 1 strong observers supported")
        }
        _ => panic!("expected the slots to be exhausted"),
    }
    assert!(matches!(
        StrideLoadAwarePrefetcher::spawn(&mut reads, &prefetches, Some(&load)),
        Err(LoadAwareSpawnError::Attach(OQueueAttachError::AllocationFailed { .. }))
    ));
    assert!(next.shutdown().is_ok());
    assert!(matches!(next.check_for_shutdown(), Err(ShutdownError::CleanShutdown)));
    reads.drop_strong_observer(observer);
    let (mut stride, _o, _w, _s) = StridePrefetcher::spawn(&mut reads, &prefetches).unwrap();
    assert!(stride.shutdown().is_ok());
}

#[test]
fn simulated_client_wraps_around_disk() {
    assert_eq!(simulated_read_block(0, 3), 0);
    assert_eq!(simulated_read_block(5, 3), 15);
    assert_eq!(simulated_read_block(400, 3), 176);
    assert_eq!(simulated_read_block(7, 0), 0);
}

#[test]
fn simulated_client_negative_stride_wraps_from_disk_end() {
    assert_eq!(simulated_read_block(1, -1), 1023);
    assert_eq!(simulated_read_block(3, -2), 1018);
    assert_eq!(simulated_read_block(1024, -1), 0);
    assert_eq!(simulated_read_block(-1025, 1), 1023);
    assert_eq!(simulated_read_block(1, isize::MIN), (isize::MIN as usize) % 1024);
}

#[test]
fn load_steps_range_from_one_to_three() {
    assert_eq!(StrideLoadAwarePrefetcher::steps_for_load(&vec![]), 3);
    assert_eq!(StrideLoadAwarePrefetcher::steps_for_load(&vec![0]), 3);
    assert_eq!(StrideLoadAwarePrefetcher::steps_for_load(&vec![63]), 3);
    assert_eq!(StrideLoadAwarePrefetcher::steps_for_load(&vec![64]), 2);
    assert_eq!(StrideLoadAwarePrefetcher::steps_for_load(&vec![200]), 1);
    assert_eq!(StrideLoadAwarePrefetcher::steps_for_load(&vec![255]), 1);
}

#[test]
fn block_map_least_key_and_removal() {
    let mut m: BlockMap<u32> = BlockMap::new();
    assert_eq!(m.len(), 0);
    m.insert_new(7, 70);
    m.insert_new(3, 30);
    m.insert_new(12, 120);
    assert_eq!(m.len(), 3);
    assert_eq!(m.least_key(), 3);
    assert!(m.contains_key(12));
    assert_eq!(m.get(7), Some(&70));
    assert_eq!(m.get(8), None);
    assert_eq!(m.remove(3), Some(30));
    assert_eq!(m.remove(3), None);
    assert_eq!(m.len(), 2);
    assert_eq!(m.least_key(), 7);
}

#[test]
fn load_aware_prefetcher_needs_registered_system_load() {
    let mut reads: ObservableLockingQueue<usize> = ObservableLockingQueue::new(16, 1);
    let prefetches: LockingQueue<usize> = LockingQueue::new(16);
    let load: ObservableLockingQueue<u8> = ObservableLockingQueue::new(2, 2);
    match StrideLoadAwarePrefetcher::spawn(&mut reads, &prefetches, None) {
        Err(LoadAwareSpawnError::Unregistered { message }) => assert_eq!(message, "Unwrapped None"),
        _ => panic!("expected the missing system-load queue to be reported"),
    }
    // The strong-observer slot taken during the attempt was freed again.
    let (mut p, _o, _w, _s, _l) =
        StrideLoadAwarePrefetcher::spawn(&mut reads, &prefetches, Some(&load)).ok().unwrap();
    assert!(p.check_for_shutdown().is_ok());
    assert!(p.shutdown().is_ok());
}
