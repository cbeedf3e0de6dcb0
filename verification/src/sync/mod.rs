//! Bookkeeping for tasks that wait on queues.

pub mod blocker;
