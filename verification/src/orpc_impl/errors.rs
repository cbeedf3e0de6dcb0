use vstd::prelude::*;

verus! {

/// An error during an RPC call: failure via panic, or the server not running.
#[derive(Debug)]
pub enum RPCError {
    /// A panic occurred in the server during the call. The panic payload is converted to a string
    /// where possible; otherwise the message is a generic one.
    Panic { message: String },
    /// The server does not exist or is not running. This can happen when a server already crashed
    /// or has been shut down.
    ServerMissing,
}

/// The message reported for a panic whose payload is not a string.
pub open spec fn non_string_payload_message() -> Seq<char> {
    "Non-string panic payload"@
}

impl RPCError {
    /// Convert a panic payload into an `RPCError::Panic`. `payload` is the payload as a string
    /// when it is one (a `&str` or a `String`), and `None` otherwise.
    pub fn from_panic(payload: Option<&str>) -> (r: Self)
        ensures
            r matches RPCError::Panic { message } && message@ == match payload {
                Some(s) => s@,
                None => non_string_payload_message(),
            },
    {
        let fallback = "Non-string panic payload";
        proof {
            reveal_strlit("Non-string panic payload");
        }
        let text = match payload {
            Some(s) => s,
            None => fallback,
        };
        RPCError::Panic { message: text.to_owned() }
    }
}

} // verus!
