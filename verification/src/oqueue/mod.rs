//! Observable queues: a ring buffer that senders fill and that receivers, strong observers and weak
//! observers read with different guarantees.

pub mod cursor;
pub mod error;
pub mod ring;
pub mod table;
pub mod locking;
pub mod laws;
pub mod registry;
