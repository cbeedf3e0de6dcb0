//! The parts of the ORPC framework that decide something: the errors an RPC call reports.

pub mod errors;
pub mod framework;
