//! Observable queues (OQueues) and the decision logic of the servers built on them.

pub mod oqueue;
pub mod orpc_impl;
pub mod sync;
pub mod prefetcher_demo;
