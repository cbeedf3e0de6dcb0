//! Blocks and the errors of block devices.

use vstd::prelude::*;
use crate::oqueue::error::OQueueAttachError;
use crate::orpc_impl::errors::RPCError;

verus! {

/// The number of bytes in a block.
pub const BLOCK_SIZE: usize = 4096;

/// The block data returned from a read.
#[derive(Clone)]
pub struct Block<D> {
    /// The block number.
    pub block_id: usize,
    /// The block data.
    pub data: D,
}

/// An error that can be returned from block device operations.
#[derive(Debug)]
pub enum IOError {
    /// An RPC failure.
    RPCError { source: RPCError },
    /// An OQueue handling failure.
    OQueueAttachError { source: OQueueAttachError },
    /// An error in the IO operation.
    IOFailure { message: String },
}

} // verus!
