use std::path::PathBuf;
use std::time::Duration;

use ccp::allocation::create_allocate_strategy;
use ccp::allocation::dataset_chunk;
use ccp::allocation::distribute;
use ccp::allocation::ThreadsPerCoreAllocationPolicy;
use ccp::config::CUProverConfig;
use ccp::config::Optimizations;
use ccp::config::ProvingThreadConfig;
use ccp::config::RandomXFlags;
use ccp::config::Workers;
use ccp::errors::CUProverError;
use ccp::errors::ProvingThreadAsyncError;
use ccp::errors::SyncThreadError;
use ccp::errors::ThreadAllocationError;
use ccp::job::after_failure;
use ccp::job::message_actions;
use ccp::job::round_actions;
use ccp::job::start_actions;
use ccp::job::wait_actions;
use ccp::job::AfterFailure;
use ccp::job::SyncAction;
use ccp::job::ThreadMessage;
use ccp::job::state_after_message;
use ccp::messages::ToUtilityMessage;
use ccp::job::state_after_round;
use ccp::job::state_after_wait;
use ccp::job::AsyncToSyncMessageKind;
use ccp::job::RandomXJob;
use ccp::job::ThreadStateKind;
use ccp::job::TryRecvOutcome;
use ccp::proofs::is_file_suitable;
use ccp::proofs::proof_belongs_to_epoch;
use ccp::proofs::proof_file_name;
use ccp::proofs::proof_idx_from_file_name;
use ccp::proofs::NewProofHandler;
use ccp::proofs::ProofCleaner;
use ccp::proofs::ProofIdxRecovery;
use ccp::proofs::ProofStorage;
use ccp::proofs::ProofStorageDrainer;
use ccp::proofs::StateStorage;
use ccp::types::meet_difficulty;
use ccp::types::CCProofId;
use ccp::types::Difficulty;
use ccp::types::EpochParameters;
use ccp::types::GlobalNonce;
use ccp::types::LocalNonce;
use ccp::types::ProofIdx;
use ccp::types::RawProof;
use ccp::types::ResultHash;
use ccp::types::CUID;

fn epoch(global_nonce: u8, difficulty: u8) -> EpochParameters {
    EpochParameters::new(GlobalNonce::new([global_nonce; 32]), Difficulty::new([difficulty; 32]))
}

fn nonce_with_counter(counter: u64) -> LocalNonce {
    let mut bytes = [0u8; 32];
    bytes[0..8].copy_from_slice(&counter.to_le_bytes());
    LocalNonce::new(bytes)
}

// ---- allocation ---------------------------------------------------------------------------

#[test]
fn optimal_policy_gives_one_thread_per_logical_core() {
    let cores = vec![4, 68];
    let list = create_allocate_strategy(ThreadsPerCoreAllocationPolicy::Optimal, 4, &cores).unwrap();
    assert_eq!(list.iter().copied().collect::<Vec<_>>(), vec![4, 68]);
}

#[test]
fn exact_policy_goes_round_robin() {
    let cores = vec![1, 2];
    let policy = ThreadsPerCoreAllocationPolicy::Exact {
        threads_per_physical_core: 5,
    };
    let list = create_allocate_strategy(policy, 1, &cores).unwrap();
    assert_eq!(list.iter().copied().collect::<Vec<_>>(), vec![1, 2, 1, 2, 1]);
}

#[test]
fn no_logical_cores_is_an_error() {
    let cores: Vec<u32> = vec![];
    let r = create_allocate_strategy(ThreadsPerCoreAllocationPolicy::Optimal, 9, &cores);
    assert_eq!(r.unwrap_err(), ThreadAllocationError::LogicalCPUNotFound { core_id: 9 });
}

#[test]
fn distribute_wraps_around() {
    let cores = vec![10, 11, 12];
    assert_eq!(distribute(0, &cores), 10);
    assert_eq!(distribute(4, &cores), 11);
    assert_eq!(distribute(8, &cores), 12);
}

#[test]
fn dataset_chunks_tile_the_dataset() {
    assert_eq!(dataset_chunk(10, 3, 0), (0, 3));
    assert_eq!(dataset_chunk(10, 3, 1), (3, 3));
    assert_eq!(dataset_chunk(10, 3, 2), (6, 4));
    let size = 34_078_719u64;
    let threads = 7u64;
    let mut next = 0;
    for t in 0..threads {
        let (start, count) = dataset_chunk(size, threads, t);
        assert_eq!(start, next);
        next = start + count;
    }
    assert_eq!(next, size);
}

// ---- configuration ------------------------------------------------------------------------

#[test]
fn configs_copy_their_settings() {
    let optimizations = Optimizations {
        randomx_flags: RandomXFlags { bits: 0b1011 },
        threads_per_core_policy: ThreadsPerCoreAllocationPolicy::Optimal,
    };
    let workers = Workers {
        hashes_per_round: 1024,
        async_to_sync_queue_size: 2,
        sync_to_async_queue_size: 3,
    };
    let config = CUProverConfig::new(optimizations, workers);
    assert_eq!(config.randomx_flags, RandomXFlags { bits: 0b1011 });
    assert_eq!(config.threads_per_core_policy, ThreadsPerCoreAllocationPolicy::Optimal);
    assert_eq!(config.hashes_per_round, 1024);
    let thread_config = ProvingThreadConfig::from_cu_prover_config(&config);
    assert_eq!(
        thread_config,
        ProvingThreadConfig {
            hashes_per_round: 1024,
            async_to_sync_queue_size: 2,
            sync_to_async_queue_size: 3,
        }
    );
}

// ---- errors -------------------------------------------------------------------------------

#[test]
fn only_pinning_failures_are_not_critical() {
    assert!(!SyncThreadError::pinning_failed(3).is_critical());
    assert!(SyncThreadError::channel_error("closed".to_string()).is_critical());
    assert!(SyncThreadError::RandomXError("vm".to_string()).is_critical());
}

#[test]
fn error_constructors() {
    match CUProverError::logical_cpus_not_found(12) {
        CUProverError::ThreadAllocation(ThreadAllocationError::LogicalCPUNotFound { core_id }) => {
            assert_eq!(core_id, 12)
        }
        other => panic!("unexpected {other:?}"),
    }
    assert!(matches!(
        ProvingThreadAsyncError::channel_error("x".to_string()),
        ProvingThreadAsyncError::ChannelError(m) if m == "x"
    ));
    assert!(matches!(
        ProvingThreadAsyncError::join_error("y".to_string()),
        ProvingThreadAsyncError::JoinThreadFailed(m) if m == "y"
    ));
}

// ---- difficulty and jobs ------------------------------------------------------------------

#[test]
fn difficulty_compares_bytes_in_order() {
    let mut hash = [0u8; 32];
    hash[0] = 1;
    let mut difficulty = [0u8; 32];
    difficulty[0] = 1;
    difficulty[1] = 1;
    assert!(meet_difficulty(&ResultHash::new(hash), &Difficulty::new(difficulty)));
    assert!(!meet_difficulty(&ResultHash::new(difficulty), &Difficulty::new(hash)));
    assert!(!meet_difficulty(&ResultHash::new(hash), &Difficulty::new(hash)));
}

#[test]
fn golden_proof_carries_the_hashed_nonce() {
    let mut job = RandomXJob::with_nonce(nonce_with_counter(41), epoch(1, 0xff), CUID::new([5; 32]), 4);
    let input = job.advance();
    assert_eq!(input.counter(), 42);
    let hash = ResultHash::new([0; 32]);
    let proof = job.check_result(hash).unwrap();
    assert_eq!(proof.local_nonce.counter(), 41);
    assert_eq!(proof.cu_id, CUID::new([5; 32]));
    assert_eq!(proof.result_hash, hash);
    assert_eq!(job.local_nonce.counter(), 42);
}

#[test]
fn hash_above_difficulty_is_no_proof() {
    let mut job = RandomXJob::with_nonce(nonce_with_counter(0), epoch(1, 0), CUID::new([5; 32]), 4);
    assert!(job.check_result(ResultHash::new([1; 32])).is_none());
    assert_eq!(job.local_nonce.counter(), 0);
    assert!(job.is_last_iteration(3));
    assert!(!job.is_last_iteration(2));
    assert_eq!(job.epoch(), epoch(1, 0));
}

#[test]
fn job_from_cc_job_keeps_its_parameters() {
    let job = RandomXJob::from_cc_job(epoch(2, 3), CUID::new([9; 32]), 16);
    assert_eq!(job.epoch, epoch(2, 3));
    assert_eq!(job.cu_id, CUID::new([9; 32]));
    assert_eq!(job.hashes_per_round, 16);
    assert_eq!(job.hash_first_input(), job.local_nonce);
}

#[test]
fn thread_state_transitions() {
    assert_eq!(state_after_message(AsyncToSyncMessageKind::NewCCJob), ThreadStateKind::CCJob);
    assert_eq!(state_after_message(AsyncToSyncMessageKind::Stop), ThreadStateKind::Stop);
    assert_eq!(state_after_message(AsyncToSyncMessageKind::Pause), ThreadStateKind::WaitForMessage);
    assert_eq!(
        state_after_message(AsyncToSyncMessageKind::CreateCache),
        ThreadStateKind::WaitForMessage
    );
    assert_eq!(state_after_round(TryRecvOutcome::Message).unwrap(), ThreadStateKind::NewMessage);
    assert_eq!(state_after_round(TryRecvOutcome::Empty).unwrap(), ThreadStateKind::CCJob);
    assert!(matches!(
        state_after_round(TryRecvOutcome::Disconnected),
        Err(SyncThreadError::ChannelError(_))
    ));
}

// ---- proof files --------------------------------------------------------------------------

#[test]
fn proof_file_names_parse() {
    assert_eq!(proof_idx_from_file_name("42"), Some(ProofIdx(42)));
    assert_eq!(proof_idx_from_file_name("+7"), Some(ProofIdx(7)));
    assert_eq!(proof_idx_from_file_name("007"), Some(ProofIdx(7)));
    assert_eq!(
        proof_idx_from_file_name("18446744073709551615"),
        Some(ProofIdx(u64::MAX))
    );
    assert_eq!(proof_idx_from_file_name("18446744073709551616"), None);
    assert_eq!(proof_idx_from_file_name(""), None);
    assert_eq!(proof_idx_from_file_name("+"), None);
    assert_eq!(proof_idx_from_file_name("-1"), None);
    assert_eq!(proof_idx_from_file_name("12.json"), None);
    assert_eq!(proof_idx_from_file_name("abc"), None);
}

#[test]
fn proof_file_name_round_trips() {
    assert_eq!(proof_file_name(ProofIdx(0)), "0");
    assert_eq!(proof_file_name(ProofIdx(1234)), "1234");
    for idx in [0u64, 9, 10, 99_999, u64::MAX] {
        assert_eq!(proof_idx_from_file_name(&proof_file_name(ProofIdx(idx))), Some(ProofIdx(idx)));
    }
}

#[test]
fn only_later_proofs_are_suitable() {
    assert!(is_file_suitable(Some(ProofIdx(5)), ProofIdx(4)));
    assert!(!is_file_suitable(Some(ProofIdx(5)), ProofIdx(5)));
    assert!(!is_file_suitable(None, ProofIdx(0)));
}

#[test]
fn proofs_of_other_epochs_do_not_belong() {
    let e = epoch(1, 2);
    let id = CCProofId::new(e.global_nonce, e.difficulty, ProofIdx(3));
    assert!(proof_belongs_to_epoch(&id, Some(&e)));
    assert!(!proof_belongs_to_epoch(&id, Some(&epoch(1, 3))));
    assert!(!proof_belongs_to_epoch(&id, Some(&epoch(2, 2))));
    assert!(!proof_belongs_to_epoch(&id, None));
}

#[test]
fn recovery_continues_after_the_largest_index() {
    let mut recovery = ProofIdxRecovery::new();
    assert_eq!(recovery.next_proof_idx(), ProofIdx(0));
    recovery.observe(ProofIdx(3));
    recovery.observe(ProofIdx(11));
    recovery.observe(ProofIdx(7));
    assert_eq!(recovery.max_proof_idx, Some(ProofIdx(11)));
    assert_eq!(recovery.next_proof_idx(), ProofIdx(12));
    let mut zero = ProofIdxRecovery::new();
    zero.observe(ProofIdx(0));
    assert_eq!(zero.next_proof_idx(), ProofIdx(1));
}

#[test]
fn storages_keep_their_directories() {
    let dir = PathBuf::from("/tmp/cc_proofs");
    assert_eq!(ProofStorage::new(dir.clone()).proof_directory(), &dir);
    assert_eq!(ProofStorageDrainer::new(dir.clone()).proof_directory(), &dir);
    assert_eq!(ProofCleaner::new(dir.clone()).proof_directory(), &dir);
    assert_eq!(StateStorage::new(dir.clone()).state_dir(), &dir);
}

#[test]
fn new_proof_handler_numbers_proofs_per_epoch() {
    let storage = ProofStorage::new(PathBuf::from("/tmp/p"));
    let mut handler = NewProofHandler::new(storage, ProofIdx(4), Some(GlobalNonce::new([1; 32])));
    let same_epoch = RawProof::new(epoch(1, 9), nonce_with_counter(1), CUID::new([2; 32]), ResultHash::new([0; 32]));
    assert!(!handler.is_new_epoch(&same_epoch));
    let proof = handler.prepare_proof(&same_epoch);
    assert_eq!(proof.id.idx, ProofIdx(4));
    assert_eq!(proof.id.global_nonce, GlobalNonce::new([1; 32]));
    assert_eq!(proof.id.difficulty, Difficulty::new([9; 32]));
    assert_eq!(proof.cu_id, CUID::new([2; 32]));
    handler.proof_stored();
    let proof = handler.prepare_proof(&same_epoch);
    assert_eq!(proof.id.idx, ProofIdx(5));
    handler.proof_stored();

    let next_epoch = RawProof::new(epoch(2, 9), nonce_with_counter(1), CUID::new([2; 32]), ResultHash::new([0; 32]));
    assert!(handler.is_new_epoch(&next_epoch));
    let proof = handler.prepare_proof(&next_epoch);
    assert_eq!(proof.id.idx, ProofIdx(0));
    assert_eq!(proof.id.global_nonce, GlobalNonce::new([2; 32]));
    assert_eq!(handler.proof_storage().proof_directory(), &PathBuf::from("/tmp/p"));
}

#[test]
fn new_proof_handler_without_a_previous_epoch_starts_from_zero_nonce() {
    let storage = ProofStorage::new(PathBuf::from("/tmp/p"));
    let mut handler = NewProofHandler::new(storage, ProofIdx(0), None);
    let zero_epoch = RawProof::new(epoch(0, 9), nonce_with_counter(1), CUID::new([2; 32]), ResultHash::new([0; 32]));
    assert!(!handler.is_new_epoch(&zero_epoch));
    handler.maybe_new_epoch(&zero_epoch);
    let proof = handler.prepare_proof(&zero_epoch);
    assert_eq!(proof.id.idx, ProofIdx(0));
}

#[test]
fn proof_idx_steps() {
    let mut idx = ProofIdx::zero();
    idx.increment();
    idx.increment();
    assert_eq!(idx, ProofIdx(2));
    assert!(ProofIdx(1).is_before(&idx));
    assert!(!idx.is_before(&idx));
}

#[test]
fn durations_are_kept_by_hashrate_records() {
    let d = Duration::from_millis(1500);
    let record = ccp::hashrate::record::ThreadHashrateRecord::checked_hashes(epoch(1, 1), 3, d, 100);
    assert_eq!(record.duration, d);
    assert_eq!(record.core_id, 3);
}

#[test]
fn join_errors_are_critical() {
    let e = SyncThreadError::join_error("panicked".to_string());
    assert!(e.is_critical());
    assert!(matches!(e, SyncThreadError::JoinThreadError(m) if m == "panicked"));
}

#[test]
fn utility_messages_carry_their_contents() {
    let proof = RawProof::new(epoch(1, 1), nonce_with_counter(3), CUID::new([4; 32]), ResultHash::new([0; 32]));
    match ToUtilityMessage::proof_found(6, proof) {
        ToUtilityMessage::ProofFound { core_id, proof } => {
            assert_eq!(core_id, 6);
            assert_eq!(proof.local_nonce.counter(), 3);
        }
        other => panic!("unexpected {other:?}"),
    }
    let record = ccp::hashrate::record::ThreadHashrateRecord::cache_creation(epoch(1, 1), 2, Duration::from_secs(1));
    assert!(matches!(ToUtilityMessage::hashrate(record), ToUtilityMessage::Hashrate(r) if r.core_id == 2));
    assert!(matches!(
        ToUtilityMessage::error_happened(5, SyncThreadError::pinning_failed(5)),
        ToUtilityMessage::ErrorHappened { core_id: 5, error: SyncThreadError::ThreadPinFailed { core_id: 5 } }
    ));
}

#[test]
fn waiting_thread_states() {
    assert_eq!(state_after_wait(true).unwrap(), ThreadStateKind::NewMessage);
    match state_after_wait(false) {
        Err(SyncThreadError::ChannelError(m)) => {
            assert_eq!(m, "ThreadState::WaitForMessage async part of the ptt channel is dropped")
        }
        other => panic!("unexpected {other:?}"),
    }
    match state_after_round(TryRecvOutcome::Disconnected) {
        Err(SyncThreadError::ChannelError(m)) => {
            assert_eq!(m, "prover channel error: receiving on a closed channel")
        }
        other => panic!("unexpected {other:?}"),
    }
}

#[test]
fn thread_actions_for_each_message() {
    let e = epoch(1, 2);
    let flags = RandomXFlags { bits: 8 };
    let (state, actions) = message_actions(3, ThreadMessage::CreateCache { epoch: e, cu_id: CUID::new([1; 32]), flags });
    assert_eq!(state, ThreadStateKind::WaitForMessage);
    assert_eq!(actions.len(), 3);
    assert!(matches!(actions[0], SyncAction::CreateCache { flags: RandomXFlags { bits: 8 }, .. }));
    assert!(matches!(actions[1], SyncAction::SendCache));
    assert!(matches!(
        actions[2],
        SyncAction::SendHashrate { core_id: 3, variant: ccp::hashrate::record::HashrateRecordType::CacheCreation, .. }
    ));

    let (state, actions) = message_actions(3, ThreadMessage::InitializeDataset { epoch: e, start_item: 10, items_count: 5 });
    assert_eq!(state, ThreadStateKind::WaitForMessage);
    assert!(matches!(actions[0], SyncAction::InitializeDataset { start_item: 10, items_count: 5 }));
    assert!(matches!(actions[1], SyncAction::NotifyDatasetInitialized));
    assert!(matches!(
        actions[2],
        SyncAction::SendHashrate {
            core_id: 3,
            variant: ccp::hashrate::record::HashrateRecordType::DatasetInitialization { start_item: 10, items_count: 5 },
            ..
        }
    ));

    let (state, actions) = message_actions(3, ThreadMessage::AllocateDataset { flags });
    assert_eq!(state, ThreadStateKind::WaitForMessage);
    assert!(matches!(actions[..], [SyncAction::AllocateDataset { .. }, SyncAction::SendDataset]));

    let (state, actions) = message_actions(3, ThreadMessage::NewCCJob { epoch: e, cu_id: CUID::new([1; 32]), flags, hashes_per_round: 64 });
    assert_eq!(state, ThreadStateKind::CCJob);
    assert!(matches!(actions[..], [SyncAction::StartJob { hashes_per_round: 64, .. }]));

    let (state, actions) = message_actions(3, ThreadMessage::PinThread { core_id: 7 });
    assert_eq!(state, ThreadStateKind::WaitForMessage);
    assert!(matches!(
        actions[..],
        [SyncAction::CeaseMsr { core_id: 3 }, SyncAction::PinTo { core_id: 7 }, SyncAction::EnforceMsr { core_id: 7 }]
    ));

    let (state, actions) = message_actions(3, ThreadMessage::Pause);
    assert_eq!(state, ThreadStateKind::WaitForMessage);
    assert!(matches!(actions[..], [SyncAction::NotifyPaused]));

    let (state, actions) = message_actions(3, ThreadMessage::Stop);
    assert_eq!(state, ThreadStateKind::Stop);
    assert!(matches!(actions[..], [SyncAction::CeaseMsr { core_id: 3 }]));
}

#[test]
fn thread_start_wait_and_round_actions() {
    let (state, actions) = start_actions(4);
    assert_eq!(state, ThreadStateKind::WaitForMessage);
    assert!(matches!(actions[..], [SyncAction::PinTo { core_id: 4 }, SyncAction::EnforceMsr { core_id: 4 }]));
    let (state, actions) = wait_actions();
    assert_eq!(state, ThreadStateKind::NewMessage);
    assert!(matches!(actions[..], [SyncAction::Receive]));
    let job = RandomXJob::with_nonce(nonce_with_counter(0), epoch(1, 1), CUID::new([5; 32]), 16);
    let actions = round_actions(4, &job);
    assert!(matches!(
        actions[..],
        [
            SyncAction::ProveRound,
            SyncAction::SendHashrate { core_id: 4, variant: ccp::hashrate::record::HashrateRecordType::CheckedHashes { count: 16 }, .. },
            SyncAction::TryReceive
        ]
    ));
}

#[test]
fn thread_failures_are_reported() {
    let (after, report) = after_failure(3, SyncAction::CeaseMsr { core_id: 3 }, SyncThreadError::RandomXError("msr".to_string()));
    assert_eq!(after, AfterFailure::Continue);
    assert!(matches!(report, ToUtilityMessage::ErrorHappened { core_id: 3, .. }));
    let (after, report) = after_failure(3, SyncAction::EnforceMsr { core_id: 7 }, SyncThreadError::RandomXError("msr".to_string()));
    assert_eq!(after, AfterFailure::Continue);
    assert!(matches!(report, ToUtilityMessage::ErrorHappened { core_id: 7, .. }));
    let (after, report) = after_failure(3, SyncAction::PinTo { core_id: 7 }, SyncThreadError::RandomXError("pin".to_string()));
    assert_eq!(after, AfterFailure::SkipNext);
    assert!(matches!(
        report,
        ToUtilityMessage::ErrorHappened { core_id: 3, error: SyncThreadError::ThreadPinFailed { core_id: 7 } }
    ));
    let (after, report) = after_failure(3, SyncAction::Receive, SyncThreadError::channel_error("closed".to_string()));
    assert_eq!(after, AfterFailure::EndThread);
    assert!(matches!(report, ToUtilityMessage::ErrorHappened { core_id: 3, error: SyncThreadError::ChannelError(_) }));
}
