use orpc::oqueue::cursor::Cursor;
use orpc::oqueue::error::OQueueAttachError;
use orpc::oqueue::locking::LockingQueue;
use orpc::oqueue::locking::ObservableLockingQueue;

#[derive(PartialEq, Eq, Debug, Clone, Copy, Default)]
struct TestMessage {
    x: usize,
}

// In these single-threaded tests a blocking `send`, `receive` or `strong_observe` is one that
// must succeed at once, so it is written as the `try_` call and its success is asserted.

#[test]
fn test_produce_consume_locking() {
    let mut oqueue = LockingQueue::new(2);
    let sender = oqueue.attach_sender().unwrap();
    let receiver = oqueue.attach_receiver().unwrap();
    let test_message = TestMessage { x: 42 };

    assert_eq!(oqueue.try_send(&sender, test_message), None);
    assert!(oqueue.try_send(&sender, test_message).is_some());

    assert_eq!(oqueue.try_receive(&receiver), Some(test_message));
    assert_eq!(oqueue.try_receive(&receiver), None);

    assert_eq!(oqueue.try_send(&sender, test_message), None);
}

#[test]
fn test_produce_consume_observable_locking() {
    let mut oqueue = ObservableLockingQueue::new(2, 5);
    let sender = oqueue.attach_sender().unwrap();
    let receiver = oqueue.attach_receiver().unwrap();
    let test_message = TestMessage { x: 42 };

    assert_eq!(oqueue.try_send(&sender, test_message), None);
    assert!(oqueue.try_send(&sender, test_message).is_some());

    assert_eq!(oqueue.try_receive(&receiver), Some(test_message));
    assert_eq!(oqueue.try_receive(&receiver), None);

    assert_eq!(oqueue.try_send(&sender, test_message), None);
}

#[test]
fn test_produce_strong_observe_observable_locking() {
    let mut oqueue = ObservableLockingQueue::new(2, 5);
    let sender = oqueue.attach_sender().unwrap();
    let receiver = oqueue.attach_receiver().unwrap();
    let test_message = TestMessage { x: 42 };

    // Normal operation when there is no observer
    assert_eq!(oqueue.try_send(&sender, test_message), None);
    assert!(oqueue.try_send(&sender, test_message).is_some());

    assert_eq!(oqueue.try_receive(&receiver), Some(test_message));
    assert_eq!(oqueue.try_receive(&receiver), None);

    assert_eq!(oqueue.try_send(&sender, test_message), None);
    assert_eq!(oqueue.try_receive(&receiver), Some(test_message));

    assert_eq!(oqueue.try_receive(&receiver), None);

    // With observer we should block sooner.
    let observer = oqueue.attach_strong_observer().unwrap();

    assert_eq!(oqueue.try_send(&sender, test_message), None);
    assert!(oqueue.try_send(&sender, test_message).is_some());

    assert_eq!(oqueue.try_receive(&receiver), Some(test_message));
    assert_eq!(oqueue.try_receive(&receiver), None);
    assert!(
        oqueue.try_send(&sender, test_message).is_some(),
        "send should fail here due to observer not having observed."
    );

    assert_eq!(oqueue.try_strong_observe(&observer), Some(test_message));
    assert_eq!(oqueue.try_strong_observe(&observer), None);

    assert_eq!(oqueue.try_send(&sender, test_message), None);
}

#[test]
fn test_produce_weak_observe_observable_locking() {
    let mut oqueue = ObservableLockingQueue::new(2, 5);
    let sender = oqueue.attach_sender().unwrap();
    let receiver = oqueue.attach_receiver().unwrap();
    let mut weak_observer = oqueue.attach_weak_observer().unwrap();

    let recent_cursor = oqueue.recent_cursor(&weak_observer);
    assert_eq!(oqueue.weak_observe(&mut weak_observer, recent_cursor), None);

    let test_message = TestMessage { x: 42 };
    assert_eq!(oqueue.try_send(&sender, test_message), None);

    // Check recent cursor
    let recent_cursor = oqueue.recent_cursor(&weak_observer);
    assert_eq!(
        oqueue.weak_observe(&mut weak_observer, recent_cursor),
        Some(test_message)
    );

    // Check oldest cursor
    let oldest_cursor = oqueue.oldest_cursor(&weak_observer);
    assert_eq!(
        oqueue.weak_observe(&mut weak_observer, oldest_cursor),
        Some(test_message)
    );

    assert_eq!(oqueue.try_receive(&receiver), Some(test_message));

    assert_eq!(oqueue.recent_cursor(&weak_observer), recent_cursor);
    assert_eq!(oqueue.oldest_cursor(&weak_observer), oldest_cursor);
    assert_eq!(
        oqueue.weak_observe(&mut weak_observer, recent_cursor),
        Some(test_message)
    );
    assert_eq!(
        oqueue.weak_observe(&mut weak_observer, oldest_cursor),
        Some(test_message)
    );

    let test_message_2 = TestMessage { x: 43 };

    assert_eq!(oqueue.try_send(&sender, Clone::clone(&test_message_2)), None);
    assert_eq!(oqueue.try_receive(&receiver), Some(test_message_2));

    let recent_cursor = oqueue.recent_cursor(&weak_observer);
    assert_eq!(
        oqueue.weak_observe(&mut weak_observer, recent_cursor),
        Some(test_message_2)
    );
    let oldest_cursor = oqueue.oldest_cursor(&weak_observer);
    assert_eq!(
        oqueue.weak_observe(&mut weak_observer, oldest_cursor),
        Some(test_message)
    );

    let test_message_3 = TestMessage { x: 44 };

    assert_eq!(oqueue.try_send(&sender, test_message_3), None);

    assert_eq!(oqueue.weak_observe(&mut weak_observer, oldest_cursor), None);
    assert_eq!(
        oqueue.weak_observe(&mut weak_observer, oldest_cursor + 1),
        Some(test_message_2)
    );
    assert_eq!(
        oqueue.weak_observe(&mut weak_observer, oldest_cursor + 2),
        Some(test_message_3)
    );

    assert_eq!(oqueue.try_receive(&receiver), Some(test_message_3));
}

#[test]
fn locking_queue_refuses_observers() {
    let oqueue: LockingQueue<usize> = LockingQueue::new(4);
    match oqueue.attach_strong_observer() {
        Err(OQueueAttachError::Unsupported { table_type }) => {
            assert_eq!(table_type, "orpc::oqueue::locking::LockingQueue")
        }
        _ => panic!("strong observers must be unsupported"),
    }
    assert!(matches!(
        oqueue.attach_weak_observer(),
        Err(OQueueAttachError::Unsupported { .. })
    ));
}

#[test]
fn strong_observer_slots_run_out() {
    let mut oqueue: ObservableLockingQueue<usize> = ObservableLockingQueue::new(4, 2);
    let first = oqueue.attach_strong_observer().unwrap();
    let _second = oqueue.attach_strong_observer().unwrap();
    match oqueue.attach_strong_observer() {
        Err(OQueueAttachError::AllocationFailed { table_type, message }) => {
            assert_eq!(table_type, "orpc::oqueue::locking::ObservableLockingQueue");
            assert_eq!(message, "only 2 strong observers supported");
        }
        _ => panic!("a third strong observer must not fit"),
    }
    // Detaching frees the slot for the next attacher.
    oqueue.drop_strong_observer(first);
    assert!(oqueue.attach_strong_observer().is_ok());
}

#[test]
fn receiver_capacity_is_one_less_than_buffer() {
    let mut oqueue = LockingQueue::new(4);
    let sender = oqueue.attach_sender().unwrap();
    let receiver = oqueue.attach_receiver().unwrap();
    for i in 0..3 {
        assert_eq!(oqueue.try_send(&sender, i), None);
    }
    assert!(!oqueue.can_send(&sender));
    assert_eq!(oqueue.try_send(&sender, 3), Some(3));
    // Values come out in the order they were sent, each once.
    for i in 0..3 {
        assert!(oqueue.can_receive(&receiver));
        assert_eq!(oqueue.try_receive(&receiver), Some(i));
    }
    assert!(!oqueue.can_receive(&receiver));
    assert_eq!(oqueue.try_receive(&receiver), None);
}

#[test]
fn unobserved_queue_overwrites_oldest() {
    let mut oqueue = ObservableLockingQueue::new(2, 1);
    let sender = oqueue.attach_sender().unwrap();
    let mut weak = oqueue.attach_weak_observer().unwrap();
    for i in 0..5usize {
        assert_eq!(oqueue.try_send(&sender, i), None);
    }
    assert_eq!(oqueue.weak_observe(&mut weak, Cursor(2)), None);
    assert_eq!(oqueue.weak_observe(&mut weak, Cursor(3)), Some(3));
    assert_eq!(oqueue.weak_observe(&mut weak, Cursor(4)), Some(4));
    assert_eq!(oqueue.weak_observe(&mut weak, Cursor(5)), None);
    assert_eq!(oqueue.weak_observe_range(&mut weak, Cursor(0), Cursor(10)), vec![3, 4]);
    assert_eq!(oqueue.weak_observe_recent(&mut weak, 2), vec![3, 4]);
    assert_eq!(oqueue.weak_observe_recent(&mut weak, 1), vec![4]);
    assert_eq!(oqueue.oldest_cursor(&weak), Cursor(3));
    assert_eq!(oqueue.recent_cursor(&weak), Cursor(4));
}

#[test]
fn weak_observer_wakes_on_new_data() {
    let mut oqueue = ObservableLockingQueue::new(4, 1);
    let sender = oqueue.attach_sender().unwrap();
    let mut weak = oqueue.attach_weak_observer().unwrap();
    assert!(!oqueue.weak_should_try(&weak));
    assert_eq!(oqueue.try_send(&sender, 7u8), None);
    assert!(oqueue.weak_should_try(&weak));
    let recent = oqueue.recent_cursor(&weak);
    assert_eq!(oqueue.weak_observe(&mut weak, recent), Some(7));
    assert!(!oqueue.weak_should_try(&weak));
}

#[test]
fn cursor_arithmetic() {
    assert_eq!(Cursor(5).index(), 5);
    assert_eq!((Cursor(5) + 3).index(), 8);
    assert_eq!(Cursor(5) - 3, Cursor(2));
    assert_eq!(Cursor(2) - 3, Cursor(0));
    assert!(Cursor(2) < Cursor(3));
    assert!(Cursor(3) <= Cursor(3));
    assert!(Cursor(4) > Cursor(3));
    assert_eq!(Cursor(4).cmp(&Cursor(9)), std::cmp::Ordering::Less);
}

#[test]
fn last_receiver_detaching_frees_head() {
    let mut oqueue = ObservableLockingQueue::new(2, 0);
    let sender = oqueue.attach_sender().unwrap();
    let receiver = oqueue.attach_receiver().unwrap();
    assert_eq!(oqueue.try_send(&sender, 1u32), None);
    assert!(oqueue.try_send(&sender, 2u32).is_some());
    oqueue.drop_receiver(receiver);
    // Without receivers or observers, sends never block.
    assert_eq!(oqueue.try_send(&sender, 2u32), None);
    assert_eq!(oqueue.try_send(&sender, 3u32), None);
    // A new receiver starts at the tail.
    let receiver = oqueue.attach_receiver().unwrap();
    assert_eq!(oqueue.try_receive(&receiver), None);
    assert_eq!(oqueue.try_send(&sender, 4u32), None);
    assert_eq!(oqueue.try_receive(&receiver), Some(4));
}

#[test]
fn receivers_share_values_once_in_send_order() {
    let mut q: LockingQueue<u32> = LockingQueue::new(4);
    let s = q.attach_sender().ok().unwrap();
    let r1 = q.attach_receiver().ok().unwrap();
    let r2 = q.attach_receiver().ok().unwrap();
    let mut got: Vec<u32> = Vec::new();
    assert_eq!(q.try_send(&s, 1), None);
    assert_eq!(q.try_send(&s, 2), None);
    got.push(q.try_receive(&r2).unwrap());
    assert_eq!(q.try_send(&s, 3), None);
    assert_eq!(q.try_send(&s, 4), None);
    // Three values are pending in a buffer of four slots: the send is refused.
    assert_eq!(q.try_send(&s, 5), Some(5));
    got.push(q.try_receive(&r1).unwrap());
    got.push(q.try_receive(&r2).unwrap());
    got.push(q.try_receive(&r1).unwrap());
    assert_eq!(q.try_receive(&r1), None);
    assert_eq!(q.try_receive(&r2), None);
    assert_eq!(got, vec![1, 2, 3, 4]);
}
