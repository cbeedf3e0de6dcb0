//! Explicit shutdown of servers.

use vstd::prelude::*;
use crate::orpc_impl::errors::RPCError;

verus! {

/// A server that can be shut down explicitly.
pub trait Shutdown {
    /// Ask the server to shut down. Its threads stop at their next check.
    fn shutdown(&mut self) -> Result<(), RPCError>;
}

/// An error to represent clean server shutdown.
pub enum ShutdownError {
    /// An RPC failure.
    RPCError { source: RPCError },
    /// The server was shut down cleanly.
    CleanShutdown,
}

/// The shutdown flag of a server implementing [`Shutdown`]. Servers forward
/// [`Shutdown::shutdown`] to [`ShutdownState::shutdown`] and call
/// [`ShutdownState::check_for_shutdown`] periodically in their threads and methods.
pub struct ShutdownState {
    is_shutdown: bool,
}

impl ShutdownState {
    /// Whether the server has been shut down.
    pub closed spec fn is_shut_down(&self) -> bool {
        self.is_shutdown
    }

    /// A server that is running.
    pub fn new() -> (r: Self)
        ensures
            !r.is_shut_down(),
    {
        ShutdownState { is_shutdown: false }
    }

    /// Check whether the server is shut down; `CleanShutdown` if it is.
    pub fn check_for_shutdown(&self) -> (r: Result<(), ShutdownError>)
        ensures
            r is Ok <==> !self.is_shut_down(),
            r is Err ==> r matches Err(ShutdownError::CleanShutdown),
    {
        if self.is_shutdown {
            return Err(ShutdownError::CleanShutdown);
        }
        Ok(())
    }

    /// Mark the server as shut down. This never fails; it returns a `Result` so that the
    /// forwarding method of a server is just a call of it.
    pub fn shutdown(&mut self) -> (r: Result<(), RPCError>)
        ensures
            r is Ok,
            final(self).is_shut_down(),
    {
        self.is_shutdown = true;
        Ok(())
    }
}

impl Default for ShutdownState {
    fn default() -> (r: Self)
        ensures
            !r.is_shut_down(),
    {
        ShutdownState::new()
    }
}

} // verus!
