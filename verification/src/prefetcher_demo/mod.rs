//! The decision logic of the prefetcher demo's servers: a block cache, eviction policies and
//! prefetching policies.

pub mod block_device;
pub mod block_map;
pub mod cache;
pub mod shutdown;
pub mod simulation;
pub mod eviction_policy;
pub mod prefetch_policy;
