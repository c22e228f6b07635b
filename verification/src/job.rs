//! A proving job and the state machine of the synchronous part of a proving thread.
//!
//! The RandomX virtual machine is pipelined: each hash it returns is that of the nonce fed to it
//! one step earlier. A job therefore moves its nonce forward before each hash it asks for, and
//! steps back by one to name the nonce of a hash that meets the difficulty.

use vstd::prelude::*;

use crate::config::RandomXFlags;
use crate::errors::SyncThreadError;
use crate::hashrate::record::HashrateRecordType;
use crate::messages::ToUtilityMessage;
use crate::nonce::next_nonce;
use crate::nonce::prev_nonce;
use crate::types::bytes_less;
use crate::types::meet_difficulty;
use crate::types::EpochParameters;
use crate::types::LocalNonce;
use crate::types::LogicalCoreId;
use crate::types::RawProof;
use crate::types::ResultHash;
use crate::types::CUID;

verus! {

/// A running proving job: the nonce it is at, and what it proves.
#[derive(Clone, Copy, Debug)]
pub struct RandomXJob {
    pub local_nonce: LocalNonce,
    pub epoch: EpochParameters,
    pub cu_id: CUID,
    pub hashes_per_round: usize,
}

impl RandomXJob {
    /// A job that starts from `local_nonce`.
    pub fn with_nonce(
        local_nonce: LocalNonce,
        epoch: EpochParameters,
        cu_id: CUID,
        hashes_per_round: usize,
    ) -> (r: Self)
        ensures
            r == (RandomXJob { local_nonce, epoch, cu_id, hashes_per_round }),
    {
        RandomXJob { local_nonce, epoch, cu_id, hashes_per_round }
    }

    /// A job that starts from a random nonce.
    pub fn from_cc_job(epoch: EpochParameters, cu_id: CUID, hashes_per_round: usize) -> (r: Self)
        ensures
            r.epoch == epoch,
            r.cu_id == cu_id,
            r.hashes_per_round == hashes_per_round,
    {
        let local_nonce = LocalNonce::random();
        Self::with_nonce(local_nonce, epoch, cu_id, hashes_per_round)
    }

    pub fn epoch(&self) -> (r: EpochParameters)
        ensures
            r == self.epoch,
    {
        self.epoch
    }

    /// Whether `hash_id` is the last hash of a round.
    pub fn is_last_iteration(&self, hash_id: usize) -> (r: bool)
        requires
            self.hashes_per_round > 0,
        ensures
            r == (hash_id == self.hashes_per_round - 1),
    {
        hash_id == self.hashes_per_round - 1
    }

    /// The nonce that starts the pipeline of a round.
    pub fn hash_first_input(&self) -> (r: LocalNonce)
        ensures
            r == self.local_nonce,
    {
        self.local_nonce
    }

    /// Moves to the next nonce, before asking for the next hash; returns the nonce to feed.
    pub fn advance(&mut self) -> (r: LocalNonce)
        ensures
            final(self).local_nonce.0@ == next_nonce(old(self).local_nonce.0@),
            final(self).epoch == old(self).epoch,
            final(self).cu_id == old(self).cu_id,
            final(self).hashes_per_round == old(self).hashes_per_round,
            r == final(self).local_nonce,
    {
        self.local_nonce.next();
        self.local_nonce
    }

    /// The proof for a hash that meets the difficulty: it names the nonce before the current one,
    /// the one whose hash the pipeline has just returned. The job stays at its nonce.
    pub fn create_golden_proof(&mut self, result_hash: ResultHash) -> (r: RawProof)
        ensures
            r.local_nonce.0@ == prev_nonce(old(self).local_nonce.0@),
            r.epoch == old(self).epoch,
            r.cu_id == old(self).cu_id,
            r.result_hash == result_hash,
            *final(self) == *old(self),
    {
        self.local_nonce.prev();
        let proof = RawProof::new(self.epoch, self.local_nonce, self.cu_id, result_hash);
        self.local_nonce.next();
        proof {
            crate::nonce::lemma_next_prev_inverse(old(self).local_nonce.0@);
            assert(self.local_nonce.0 =~= old(self).local_nonce.0);
        }
        proof
    }

    /// Checks a hash the pipeline returned: a proof if it meets the difficulty of the epoch.
    pub fn check_result(&mut self, result_hash: ResultHash) -> (r: Option<RawProof>)
        ensures
            *final(self) == *old(self),
            r is Some <==> bytes_less(result_hash.0@, old(self).epoch.difficulty.0@),
            r matches Some(p) ==> {
                &&& p.local_nonce.0@ == prev_nonce(old(self).local_nonce.0@)
                &&& p.epoch == old(self).epoch
                &&& p.cu_id == old(self).cu_id
                &&& p.result_hash == result_hash
            },
    {
        if meet_difficulty(&result_hash, &self.epoch.difficulty) {
            Some(self.create_golden_proof(result_hash))
        } else {
            None
        }
    }
}

/// The kind of a message the asynchronous part sends to the synchronous one.
#[derive(Clone, Copy, Debug, PartialEq, Eq, Structural)]
pub enum AsyncToSyncMessageKind {
    CreateCache,
    AllocateDataset,
    InitializeDataset,
    NewCCJob,
    PinThread,
    Pause,
    Stop,
}

/// The state of the synchronous part of a proving thread, without the data it holds.
#[derive(Clone, Copy, Debug, PartialEq, Eq, Structural)]
pub enum ThreadStateKind {
    CCJob,
    NewMessage,
    WaitForMessage,
    Stop,
}

/// What a non-blocking receive found after a round of hashing.
#[derive(Clone, Copy, Debug, PartialEq, Eq, Structural)]
pub enum TryRecvOutcome {
    Message,
    Empty,
    Disconnected,
}

/// The state after a blocking receive: a message is handled next; a dropped channel is an
/// error that ends the thread.
pub fn state_after_wait(received: bool) -> (r: Result<ThreadStateKind, SyncThreadError>)
    ensures
        received ==> r == Ok::<ThreadStateKind, SyncThreadError>(ThreadStateKind::NewMessage),
        !received ==> (r matches Err(SyncThreadError::ChannelError(m))
            && m@ == "ThreadState::WaitForMessage async part of the ptt channel is dropped"@),
{
    if received {
        Ok(ThreadStateKind::NewMessage)
    } else {
        Err(
            SyncThreadError::channel_error(
                "ThreadState::WaitForMessage async part of the ptt channel is dropped".to_string(),
            ),
        )
    }
}

/// The state after handling a message: a new job starts hashing, a stop stops the thread,
/// every other message is answered and the thread waits for the next one.
pub fn state_after_message(kind: AsyncToSyncMessageKind) -> (r: ThreadStateKind)
    ensures
        r == state_after(kind),
{
    match kind {
        AsyncToSyncMessageKind::NewCCJob => ThreadStateKind::CCJob,
        AsyncToSyncMessageKind::Stop => ThreadStateKind::Stop,
        _ => ThreadStateKind::WaitForMessage,
    }
}

/// The state after a round of hashing: a waiting message is handled next, otherwise the job
/// goes on; a closed channel ends the thread with an error.
pub fn state_after_round(outcome: TryRecvOutcome) -> (r: Result<ThreadStateKind, SyncThreadError>)
    ensures
        outcome == TryRecvOutcome::Message ==> r == Ok::<ThreadStateKind, SyncThreadError>(
            ThreadStateKind::NewMessage,
        ),
        outcome == TryRecvOutcome::Empty ==> r == Ok::<ThreadStateKind, SyncThreadError>(
            ThreadStateKind::CCJob,
        ),
        outcome == TryRecvOutcome::Disconnected ==> (r matches Err(
            SyncThreadError::ChannelError(m),
        ) && m@ == "prover channel error: receiving on a closed channel"@),
{
    match outcome {
        TryRecvOutcome::Message => Ok(ThreadStateKind::NewMessage),
        TryRecvOutcome::Empty => Ok(ThreadStateKind::CCJob),
        TryRecvOutcome::Disconnected => Err(
            SyncThreadError::channel_error("prover channel error: receiving on a closed channel".to_string()),
        ),
    }
}

/// A message of the asynchronous side to a proving thread, with what the thread reads of it.
#[derive(Clone, Copy, Debug)]
pub enum ThreadMessage {
    CreateCache { epoch: EpochParameters, cu_id: CUID, flags: RandomXFlags },
    AllocateDataset { flags: RandomXFlags },
    InitializeDataset { epoch: EpochParameters, start_item: u64, items_count: u64 },
    NewCCJob { epoch: EpochParameters, cu_id: CUID, flags: RandomXFlags, hashes_per_round: usize },
    PinThread { core_id: LogicalCoreId },
    Pause,
    Stop,
}

/// The kind of a message.
pub open spec fn message_kind(message: ThreadMessage) -> AsyncToSyncMessageKind {
    match message {
        ThreadMessage::CreateCache { .. } => AsyncToSyncMessageKind::CreateCache,
        ThreadMessage::AllocateDataset { .. } => AsyncToSyncMessageKind::AllocateDataset,
        ThreadMessage::InitializeDataset { .. } => AsyncToSyncMessageKind::InitializeDataset,
        ThreadMessage::NewCCJob { .. } => AsyncToSyncMessageKind::NewCCJob,
        ThreadMessage::PinThread { .. } => AsyncToSyncMessageKind::PinThread,
        ThreadMessage::Pause => AsyncToSyncMessageKind::Pause,
        ThreadMessage::Stop => AsyncToSyncMessageKind::Stop,
    }
}

/// The state after a message of `kind` is handled.
pub open spec fn state_after(kind: AsyncToSyncMessageKind) -> ThreadStateKind {
    match kind {
        AsyncToSyncMessageKind::NewCCJob => ThreadStateKind::CCJob,
        AsyncToSyncMessageKind::Stop => ThreadStateKind::Stop,
        _ => ThreadStateKind::WaitForMessage,
    }
}

/// What a proving thread does, one thing after the other.
#[derive(Clone, Copy, Debug)]
pub enum SyncAction {
    /// Blocks until a message arrives.
    Receive,
    /// Takes a message if one is waiting.
    TryReceive,
    /// Builds the RandomX cache of compute unit `cu_id` in `epoch`.
    CreateCache { epoch: EpochParameters, cu_id: CUID, flags: RandomXFlags },
    /// Sends the cache just built to the asynchronous side.
    SendCache,
    /// Allocates a RandomX dataset.
    AllocateDataset { flags: RandomXFlags },
    /// Sends the dataset just allocated to the asynchronous side.
    SendDataset,
    /// Initializes `items_count` items of the dataset from `start_item` on, from the cache.
    InitializeDataset { start_item: u64, items_count: u64 },
    /// Tells the asynchronous side that the dataset part is initialized.
    NotifyDatasetInitialized,
    /// Sends the utility thread a hashrate record: how long the work of the first action of the
    /// list took, on `core_id`, in `epoch`.
    SendHashrate { epoch: EpochParameters, core_id: LogicalCoreId, variant: HashrateRecordType },
    /// Builds the RandomX machine and a job with a random nonce.
    StartJob { epoch: EpochParameters, cu_id: CUID, flags: RandomXFlags, hashes_per_round: usize },
    /// Hashes one round of the job, sending every proof found to the utility thread.
    ProveRound,
    /// Tells the asynchronous side that the thread is paused.
    NotifyPaused,
    /// Ceases the MSR setting on `core_id`.
    CeaseMsr { core_id: LogicalCoreId },
    /// Pins the thread to `core_id`.
    PinTo { core_id: LogicalCoreId },
    /// Applies the MSR setting on `core_id`.
    EnforceMsr { core_id: LogicalCoreId },
}

/// The actions a proving thread on `core_id` takes for `message`.
pub open spec fn message_action_seq(core_id: LogicalCoreId, message: ThreadMessage) -> Seq<
    SyncAction,
> {
    match message {
        ThreadMessage::CreateCache { epoch, cu_id, flags } => seq![
            SyncAction::CreateCache { epoch, cu_id, flags },
            SyncAction::SendCache,
            SyncAction::SendHashrate { epoch, core_id, variant: HashrateRecordType::CacheCreation },
        ],
        ThreadMessage::AllocateDataset { flags } => seq![
            SyncAction::AllocateDataset { flags },
            SyncAction::SendDataset,
        ],
        ThreadMessage::InitializeDataset { epoch, start_item, items_count } => seq![
            SyncAction::InitializeDataset { start_item, items_count },
            SyncAction::NotifyDatasetInitialized,
            SyncAction::SendHashrate {
                epoch,
                core_id,
                variant: HashrateRecordType::DatasetInitialization { start_item, items_count },
            },
        ],
        ThreadMessage::NewCCJob { epoch, cu_id, flags, hashes_per_round } => seq![
            SyncAction::StartJob { epoch, cu_id, flags, hashes_per_round },
        ],
        ThreadMessage::PinThread { core_id: new_core } => seq![
            SyncAction::CeaseMsr { core_id },
            SyncAction::PinTo { core_id: new_core },
            SyncAction::EnforceMsr { core_id: new_core },
        ],
        ThreadMessage::Pause => seq![SyncAction::NotifyPaused],
        ThreadMessage::Stop => seq![SyncAction::CeaseMsr { core_id }],
    }
}

/// The epoch a message is about, if it names one.
pub open spec fn message_epoch(message: ThreadMessage) -> Option<EpochParameters> {
    match message {
        ThreadMessage::CreateCache { epoch, .. } => Some(epoch),
        ThreadMessage::InitializeDataset { epoch, .. } => Some(epoch),
        ThreadMessage::NewCCJob { epoch, .. } => Some(epoch),
        _ => None,
    }
}

/// Whether `action` is one a thread on `core_id` may take for `message`: a cache is built only
/// for a cache creation message, with exactly its epoch, compute unit and flags; a job is started
/// only for a new job message, with exactly its epoch, compute unit, flags and round size; a
/// hashrate record names `core_id` and the message's epoch and is filed under what the message
/// had measured.
pub open spec fn acts_for(core_id: LogicalCoreId, message: ThreadMessage, action: SyncAction) -> bool {
    match action {
        SyncAction::CreateCache { epoch, cu_id, flags } => message == (ThreadMessage::CreateCache {
            epoch,
            cu_id,
            flags,
        }),
        SyncAction::StartJob { epoch, cu_id, flags, hashes_per_round } => message == (
        ThreadMessage::NewCCJob { epoch, cu_id, flags, hashes_per_round }),
        SyncAction::SendHashrate { epoch, core_id: c, variant } => {
            &&& c == core_id
            &&& message_epoch(message) == Some(epoch)
            &&& (message is CreateCache ==> variant is CacheCreation)
            &&& (message matches ThreadMessage::InitializeDataset { start_item, items_count, .. }
                ==> variant == (HashrateRecordType::DatasetInitialization {
                start_item,
                items_count,
            }))
        },
        _ => true,
    }
}

/// A thread acts for the message it got and for its own core. A cache is only ever built for a
/// cache creation message, with exactly its epoch, compute unit and flags, and that is the first
/// thing the thread does for it; a job is only ever started for a new job message, with exactly
/// its epoch, compute unit, flags and round size. Every hashrate record names the thread's core
/// and the message's epoch, and is filed under what was measured: a cache creation for a cache
/// creation message, the dataset part for an initialization message. A stop ceases the MSR
/// setting on the thread's own core; a pin request ceases it there and then pins the thread to
/// the requested core and applies the setting on that core.
pub proof fn lemma_message_actions_follow_message(core_id: LogicalCoreId, message: ThreadMessage)
    ensures
        message_action_seq(core_id, message).len() > 0,
        (forall|i: int|
            #![trigger message_action_seq(core_id, message)[i]]
            0 <= i < message_action_seq(core_id, message).len() ==> acts_for(
                core_id,
                message,
                message_action_seq(core_id, message)[i],
            )),
        (message matches ThreadMessage::CreateCache { epoch, cu_id, flags }
            ==> message_action_seq(core_id, message)[0] == (SyncAction::CreateCache {
            epoch,
            cu_id,
            flags,
        })),
        (message matches ThreadMessage::NewCCJob { epoch, cu_id, flags, hashes_per_round }
            ==> message_action_seq(core_id, message)[0] == (SyncAction::StartJob {
            epoch,
            cu_id,
            flags,
            hashes_per_round,
        })),
        (message matches ThreadMessage::InitializeDataset { start_item, items_count, .. }
            ==> message_action_seq(core_id, message)[0] == (SyncAction::InitializeDataset {
            start_item,
            items_count,
        })),
        (message is Stop ==> message_action_seq(core_id, message) == seq![
            SyncAction::CeaseMsr { core_id },
        ]),
        (message matches ThreadMessage::PinThread { core_id: target } ==> {
            &&& message_action_seq(core_id, message)[0] == (SyncAction::CeaseMsr { core_id })
            &&& message_action_seq(core_id, message).last() == (SyncAction::EnforceMsr {
                core_id: target,
            })
            &&& message_action_seq(core_id, message).contains(
                SyncAction::PinTo { core_id: target },
            )
        }),
{
    let s = message_action_seq(core_id, message);
    if let ThreadMessage::PinThread { core_id: target } = message {
        assert(s[1] == SyncAction::PinTo { core_id: target });
    }
}

/// What a proving thread on `core_id` does when it starts: it pins itself to its core and
/// applies the MSR setting there, then waits for a message.
pub fn start_actions(core_id: LogicalCoreId) -> (r: (ThreadStateKind, Vec<SyncAction>))
    ensures
        r.0 == ThreadStateKind::WaitForMessage,
        r.1@ == seq![SyncAction::PinTo { core_id }, SyncAction::EnforceMsr { core_id }],
{
    let mut actions: Vec<SyncAction> = Vec::new();
    actions.push(SyncAction::PinTo { core_id });
    actions.push(SyncAction::EnforceMsr { core_id });
    proof {
        assert(actions@ =~= seq![SyncAction::PinTo { core_id }, SyncAction::EnforceMsr { core_id }]);
    }
    (ThreadStateKind::WaitForMessage, actions)
}

/// What a waiting proving thread does: it blocks until a message arrives, then handles it.
pub fn wait_actions() -> (r: (ThreadStateKind, Vec<SyncAction>))
    ensures
        r.0 == ThreadStateKind::NewMessage,
        r.1@ == seq![SyncAction::Receive],
{
    let mut actions: Vec<SyncAction> = Vec::new();
    actions.push(SyncAction::Receive);
    proof {
        assert(actions@ =~= seq![SyncAction::Receive]);
    }
    (ThreadStateKind::NewMessage, actions)
}

/// What a proving thread on `core_id` does in a round of `job`: it hashes the round, sends the
/// record of the hashes it checked, and looks for a waiting message (`state_after_round` gives
/// the state that follows).
pub fn round_actions(core_id: LogicalCoreId, job: &RandomXJob) -> (r: Vec<SyncAction>)
    ensures
        r@ == seq![
            SyncAction::ProveRound,
            SyncAction::SendHashrate {
                epoch: job.epoch,
                core_id,
                variant: HashrateRecordType::CheckedHashes { count: job.hashes_per_round },
            },
            SyncAction::TryReceive,
        ],
{
    let mut actions: Vec<SyncAction> = Vec::new();
    actions.push(SyncAction::ProveRound);
    actions.push(
        SyncAction::SendHashrate {
            epoch: job.epoch,
            core_id,
            variant: HashrateRecordType::CheckedHashes { count: job.hashes_per_round },
        },
    );
    actions.push(SyncAction::TryReceive);
    proof {
        assert(actions@ =~= seq![
            SyncAction::ProveRound,
            SyncAction::SendHashrate {
                epoch: job.epoch,
                core_id,
                variant: HashrateRecordType::CheckedHashes { count: job.hashes_per_round },
            },
            SyncAction::TryReceive,
        ]);
    }
    actions
}

/// How a proving thread on `core_id` handles `message`: the actions it takes, in order, and the
/// state it is in afterwards.
pub fn message_actions(core_id: LogicalCoreId, message: ThreadMessage) -> (r: (
    ThreadStateKind,
    Vec<SyncAction>,
))
    ensures
        r.0 == state_after(message_kind(message)),
        r.1@ == message_action_seq(core_id, message),
{
    let mut actions: Vec<SyncAction> = Vec::new();
    let state = match message {
        ThreadMessage::CreateCache { epoch, cu_id, flags } => {
            actions.push(SyncAction::CreateCache { epoch, cu_id, flags });
            actions.push(SyncAction::SendCache);
            actions.push(
                SyncAction::SendHashrate {
                    epoch,
                    core_id,
                    variant: HashrateRecordType::CacheCreation,
                },
            );
            ThreadStateKind::WaitForMessage
        },
        ThreadMessage::AllocateDataset { flags } => {
            actions.push(SyncAction::AllocateDataset { flags });
            actions.push(SyncAction::SendDataset);
            ThreadStateKind::WaitForMessage
        },
        ThreadMessage::InitializeDataset { epoch, start_item, items_count } => {
            actions.push(SyncAction::InitializeDataset { start_item, items_count });
            actions.push(SyncAction::NotifyDatasetInitialized);
            actions.push(
                SyncAction::SendHashrate {
                    epoch,
                    core_id,
                    variant: HashrateRecordType::DatasetInitialization { start_item, items_count },
                },
            );
            ThreadStateKind::WaitForMessage
        },
        ThreadMessage::NewCCJob { epoch, cu_id, flags, hashes_per_round } => {
            actions.push(SyncAction::StartJob { epoch, cu_id, flags, hashes_per_round });
            ThreadStateKind::CCJob
        },
        ThreadMessage::PinThread { core_id: new_core } => {
            actions.push(SyncAction::CeaseMsr { core_id });
            actions.push(SyncAction::PinTo { core_id: new_core });
            actions.push(SyncAction::EnforceMsr { core_id: new_core });
            ThreadStateKind::WaitForMessage
        },
        ThreadMessage::Pause => {
            actions.push(SyncAction::NotifyPaused);
            ThreadStateKind::WaitForMessage
        },
        ThreadMessage::Stop => {
            actions.push(SyncAction::CeaseMsr { core_id });
            ThreadStateKind::Stop
        },
    };
    proof {
        assert(actions@ =~= message_action_seq(core_id, message));
    }
    (state, actions)
}

/// What a proving thread does after an action failed.
#[derive(Clone, Copy, Debug, PartialEq, Eq, Structural)]
pub enum AfterFailure {
    /// It goes on with the next action.
    Continue,
    /// It skips the next action and goes on after it.
    SkipNext,
    /// It ends.
    EndThread,
}

/// What a proving thread on `thread_core` does when `action` fails with `error`, and what it
/// reports to the utility thread. Ceasing or applying the MSR setting and pinning only report
/// (a failed pin skips applying the setting on the new core); any other failure, such as a closed
/// channel, a RandomX error or a failed send, is reported for the thread's core and ends it.
pub fn after_failure(thread_core: LogicalCoreId, action: SyncAction, error: SyncThreadError) -> (r: (
    AfterFailure,
    ToUtilityMessage,
))
    ensures
        r == (match action {
            SyncAction::CeaseMsr { core_id } => (
                AfterFailure::Continue,
                ToUtilityMessage::ErrorHappened { core_id, error },
            ),
            SyncAction::EnforceMsr { core_id } => (
                AfterFailure::Continue,
                ToUtilityMessage::ErrorHappened { core_id, error },
            ),
            SyncAction::PinTo { core_id } => (
                AfterFailure::SkipNext,
                ToUtilityMessage::ErrorHappened {
                    core_id: thread_core,
                    error: SyncThreadError::ThreadPinFailed { core_id },
                },
            ),
            _ => (
                AfterFailure::EndThread,
                ToUtilityMessage::ErrorHappened { core_id: thread_core, error },
            ),
        }),
{
    match action {
        SyncAction::CeaseMsr { core_id } => (
            AfterFailure::Continue,
            ToUtilityMessage::error_happened(core_id, error),
        ),
        SyncAction::EnforceMsr { core_id } => (
            AfterFailure::Continue,
            ToUtilityMessage::error_happened(core_id, error),
        ),
        SyncAction::PinTo { core_id } => (
            AfterFailure::SkipNext,
            ToUtilityMessage::error_happened(thread_core, SyncThreadError::pinning_failed(core_id)),
        ),
        _ => (AfterFailure::EndThread, ToUtilityMessage::error_happened(thread_core, error)),
    }
}

} // verus!
