use orpc::oqueue::locking::LockingQueue;
use orpc::orpc_impl::errors::RPCError;
use orpc::orpc_impl::framework::ServerBase;

/// The state of the counting test server: its base, its increment, and its count.
struct ServerAState {
    base: ServerBase,
    increment: usize,
    atomic_count: usize,
    incr_oqueue: LockingQueue<(usize, bool)>,
}

impl ServerAState {
    /// The parts of spawning the server that the library decides: a running server whose
    /// increment queue has its worker's receiver attached.
    fn spawn(increment: usize, atomic_count: usize) -> Result<ServerAState, RPCError> {
        let mut incr_oqueue = LockingQueue::new(8);
        incr_oqueue.attach_receiver().map_err(|_| RPCError::ServerMissing)?;
        Ok(ServerAState { base: ServerBase::new(), increment, atomic_count, incr_oqueue })
    }

    /// An RPC method: add `increment + n` to the count and return the new count, or panic
    /// when asked to (reported as the panic's message).
    fn atomic_incr(&mut self, n: usize, trigger_panic: bool) -> Result<usize, RPCError> {
        self.base.begin_call()?;
        let outcome = if trigger_panic {
            Err(Some("Asked to panic"))
        } else {
            let addend = self.increment + n;
            let v = self.atomic_count;
            self.atomic_count += addend;
            Ok(v + addend)
        };
        self.base.finish_call(outcome)
    }
}

#[test]
fn start_server() {
    let server = ServerAState::spawn(2, 0).unwrap();
    assert!(!server.base.is_aborted());
    assert_eq!(server.incr_oqueue.receivers(), 1);
}

#[test]
fn direct_call() {
    let mut server_ref = ServerAState::spawn(2, 0).unwrap();
    assert_eq!(server_ref.atomic_incr(1, false).unwrap(), 3);
    assert_eq!(server_ref.atomic_incr(1, false).unwrap(), 6);
    assert!(matches!(server_ref.atomic_incr(1, true), Err(RPCError::Panic { .. })));
    assert!(matches!(server_ref.atomic_incr(1, false), Err(RPCError::ServerMissing)));
    assert!(matches!(server_ref.atomic_incr(1, true), Err(RPCError::ServerMissing)));
}
