//! Settings of a compute-unit prover and of the proving threads it runs.

use vstd::prelude::*;

use crate::allocation::ThreadsPerCoreAllocationPolicy;

verus! {

/// RandomX flags, as the bits the RandomX library reads.
#[derive(Clone, Copy, Debug, PartialEq, Eq, Structural)]
pub struct RandomXFlags {
    pub bits: u32,
}

/// The optimization settings of the prover's configuration.
#[derive(Clone, Copy, Debug, PartialEq, Eq, Structural)]
pub struct Optimizations {
    pub randomx_flags: RandomXFlags,
    pub threads_per_core_policy: ThreadsPerCoreAllocationPolicy,
}

/// The worker settings of the prover's configuration.
#[derive(Clone, Copy, Debug, PartialEq, Eq, Structural)]
pub struct Workers {
    pub hashes_per_round: usize,
    pub async_to_sync_queue_size: usize,
    pub sync_to_async_queue_size: usize,
}

/// Everything a compute-unit prover needs to know to run its threads.
#[derive(Clone, Copy, Debug, PartialEq, Eq, Structural)]
pub struct CUProverConfig {
    pub randomx_flags: RandomXFlags,
    /// How many threads are assigned to one physical core, to make use of hyper-threading.
    pub threads_per_core_policy: ThreadsPerCoreAllocationPolicy,
    pub hashes_per_round: usize,
    pub async_to_sync_queue_size: usize,
    pub sync_to_async_queue_size: usize,
}

impl CUProverConfig {
    pub fn new(ccp_optimizations: Optimizations, workers: Workers) -> (r: Self)
        ensures
            r.randomx_flags == ccp_optimizations.randomx_flags,
            r.threads_per_core_policy == ccp_optimizations.threads_per_core_policy,
            r.hashes_per_round == workers.hashes_per_round,
            r.async_to_sync_queue_size == workers.async_to_sync_queue_size,
            r.sync_to_async_queue_size == workers.sync_to_async_queue_size,
    {
        CUProverConfig {
            randomx_flags: ccp_optimizations.randomx_flags,
            threads_per_core_policy: ccp_optimizations.threads_per_core_policy,
            hashes_per_round: workers.hashes_per_round,
            async_to_sync_queue_size: workers.async_to_sync_queue_size,
            sync_to_async_queue_size: workers.sync_to_async_queue_size,
        }
    }
}

/// The part of the prover's settings that one proving thread uses.
#[derive(Clone, Copy, Debug, PartialEq, Eq, Structural)]
pub struct ProvingThreadConfig {
    pub hashes_per_round: usize,
    pub async_to_sync_queue_size: usize,
    pub sync_to_async_queue_size: usize,
}

impl ProvingThreadConfig {
    pub fn from_cu_prover_config(cu_config: &CUProverConfig) -> (r: Self)
        ensures
            r.hashes_per_round == cu_config.hashes_per_round,
            r.async_to_sync_queue_size == cu_config.async_to_sync_queue_size,
            r.sync_to_async_queue_size == cu_config.sync_to_async_queue_size,
    {
        ProvingThreadConfig {
            hashes_per_round: cu_config.hashes_per_round,
            async_to_sync_queue_size: cu_config.async_to_sync_queue_size,
            sync_to_async_queue_size: cu_config.sync_to_async_queue_size,
        }
    }
}

} // verus!
