//! The decisions that every ORPC server makes about its calls: a server that crashed answers
//! every later call with `ServerMissing`.

use vstd::prelude::*;
use crate::orpc_impl::errors::RPCError;
use crate::orpc_impl::errors::non_string_payload_message;

verus! {

/// The error an RPC method reports for a panic with the payload `payload` (`None` when it is
/// not a string).
pub open spec fn panic_error_message(payload: Option<Seq<char>>) -> Seq<char> {
    match payload {
        Some(s) => s,
        None => non_string_payload_message(),
    }
}

/// The state every server carries: whether it was aborted (usually because a method or thread
/// panicked). Waking the server's threads and logging the abort belong to the caller.
pub struct ServerBase {
    aborted: bool,
}

impl ServerBase {
    /// Whether the server was aborted.
    pub closed spec fn aborted(&self) -> bool {
        self.aborted
    }

    /// A running server.
    pub fn new() -> (r: Self)
        ensures
            !r.aborted(),
    {
        ServerBase { aborted: false }
    }

    /// Returns true if the server was aborted.
    pub fn is_aborted(&self) -> (r: bool)
        ensures
            r == self.aborted(),
    {
        self.aborted
    }

    /// Abort the server. This cannot be undone.
    pub fn abort(&mut self)
        ensures
            final(self).aborted(),
    {
        self.aborted = true;
    }

    /// The check at the start of every RPC method: an aborted server refuses the call with
    /// `ServerMissing`.
    pub fn begin_call(&self) -> (r: Result<(), RPCError>)
        ensures
            r is Ok <==> !self.aborted(),
            r is Err ==> r matches Err(RPCError::ServerMissing),
    {
        if self.aborted {
            return Err(RPCError::ServerMissing);
        }
        Ok(())
    }

    /// The end of an RPC method: its result is passed on, or, if the method panicked (with the
    /// payload as a string where it is one), the server is aborted and the call reports the
    /// panic.
    pub fn finish_call<R>(&mut self, outcome: Result<R, Option<&str>>) -> (r: Result<R, RPCError>)
        ensures
            outcome is Ok ==> final(self).aborted() == old(self).aborted(),
            outcome is Ok ==> (r matches Ok(v) && outcome == Ok::<R, Option<&str>>(v)),
            outcome is Err ==> final(self).aborted() && (r matches Err(RPCError::Panic { message })
                && message@ == panic_error_message(
                match outcome {
                    Err(Some(s)) => Some(s@),
                    _ => None,
                },
            )),
    {
        match outcome {
            Ok(v) => Ok(v),
            Err(payload) => {
                let e = RPCError::from_panic(payload);
                self.abort();
                Err(e)
            },
        }
    }
}

} // verus!
