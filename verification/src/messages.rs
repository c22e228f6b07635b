//! What the proving threads send to the utility thread.

use vstd::prelude::*;

use crate::errors::SyncThreadError;
use crate::hashrate::record::ThreadHashrateRecord;
use crate::types::LogicalCoreId;
use crate::types::RawProof;

verus! {

/// A message of a proving thread to the utility thread.
#[derive(Debug)]
pub enum ToUtilityMessage {
    ProofFound { core_id: LogicalCoreId, proof: RawProof },
    ErrorHappened { core_id: LogicalCoreId, error: SyncThreadError },
    Hashrate(ThreadHashrateRecord),
}

impl ToUtilityMessage {
    pub fn proof_found(core_id: LogicalCoreId, proof: RawProof) -> (r: Self)
        ensures
            r == (ToUtilityMessage::ProofFound { core_id, proof }),
    {
        ToUtilityMessage::ProofFound { core_id, proof }
    }

    pub fn error_happened(core_id: LogicalCoreId, error: SyncThreadError) -> (r: Self)
        ensures
            r == (ToUtilityMessage::ErrorHappened { core_id, error }),
    {
        ToUtilityMessage::ErrorHappened { core_id, error }
    }

    pub fn hashrate(entry: ThreadHashrateRecord) -> (r: Self)
        ensures
            r == ToUtilityMessage::Hashrate(entry),
    {
        ToUtilityMessage::Hashrate(entry)
    }
}

} // verus!
