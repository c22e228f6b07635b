//! Errors of the prover. Errors that come from the operating system, from RandomX or from a
//! channel are carried as their message.

use vstd::prelude::*;

use crate::types::LogicalCoreId;
use crate::types::PhysicalCoreId;

verus! {

/// Why the proving threads of a physical core could not be placed.
#[derive(Clone, Debug, PartialEq, Eq)]
pub enum ThreadAllocationError {
    /// The CPU topology could not be read.
    TopologyError(String),
    /// The physical core has no logical core.
    LogicalCPUNotFound { core_id: PhysicalCoreId },
}

/// Errors of a proving thread, as its synchronous part reports them.
#[derive(Clone, Debug)]
pub enum SyncThreadError {
    RandomXError(String),
    ChannelError(String),
    ThreadPinFailed { core_id: LogicalCoreId },
    JoinThreadError(String),
}

impl SyncThreadError {
    pub fn channel_error(error_message: String) -> (r: Self)
        ensures
            r == SyncThreadError::ChannelError(error_message),
    {
        SyncThreadError::ChannelError(error_message)
    }

    pub fn join_error(error_message: String) -> (r: Self)
        ensures
            r == SyncThreadError::JoinThreadError(error_message),
    {
        SyncThreadError::JoinThreadError(error_message)
    }

    pub fn pinning_failed(core_id: LogicalCoreId) -> (r: Self)
        ensures
            r == (SyncThreadError::ThreadPinFailed { core_id }),
    {
        SyncThreadError::ThreadPinFailed { core_id }
    }

    /// Whether the thread cannot go on after this error: a failed pinning only slows it down.
    pub fn is_critical(&self) -> (r: bool)
        ensures
            r == !(*self is ThreadPinFailed),
    {
        match self {
            SyncThreadError::RandomXError(_) => true,
            SyncThreadError::ChannelError(_) => true,
            SyncThreadError::ThreadPinFailed { .. } => false,
            SyncThreadError::JoinThreadError(_) => true,
        }
    }
}

/// Errors of the asynchronous part of a proving thread.
#[derive(Clone, Debug)]
pub enum ProvingThreadAsyncError {
    ChannelError(String),
    SyncThreadError(SyncThreadError),
    JoinThreadFailed(String),
    MsrError(String),
}

impl ProvingThreadAsyncError {
    pub fn channel_error(error_message: String) -> (r: Self)
        ensures
            r == ProvingThreadAsyncError::ChannelError(error_message),
    {
        ProvingThreadAsyncError::ChannelError(error_message)
    }

    pub fn join_error(error_message: String) -> (r: Self)
        ensures
            r == ProvingThreadAsyncError::JoinThreadFailed(error_message),
    {
        ProvingThreadAsyncError::JoinThreadFailed(error_message)
    }
}

/// Errors of a compute-unit prover.
#[derive(Clone, Debug)]
pub enum CUProverError {
    ThreadError(ProvingThreadAsyncError),
    ThreadErrors(Vec<ProvingThreadAsyncError>),
    RandomXError(String),
    ChannelError(String),
    ThreadAllocation(ThreadAllocationError),
    TopologyError(String),
}

impl CUProverError {
    pub fn logical_cpus_not_found(core_id: PhysicalCoreId) -> (r: Self)
        ensures
            r == CUProverError::ThreadAllocation(
                ThreadAllocationError::LogicalCPUNotFound { core_id },
            ),
    {
        let thread_allocation_error = ThreadAllocationError::LogicalCPUNotFound { core_id };
        CUProverError::ThreadAllocation(thread_allocation_error)
    }
}

/// Errors of the whole prover.
#[derive(Debug)]
pub enum CCProverError {
    CUProverError(CUProverError),
    CUProverErrors(Vec<CUProverError>),
    HashrateError(String),
    JoinError(String),
    UtilityThreadError(String),
    IOError(String),
}

} // verus!
