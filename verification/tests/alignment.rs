use std::collections::HashMap;

use ccp::alignment::actions_find_provers;
use ccp::alignment::pre_alignment_steps;
use ccp::alignment::settle_alignment;
use ccp::alignment::PreAlignmentStep;
use ccp::roadmap::CUProverPreAction;
use ccp::alignment::take_provers;
use ccp::alignment::AlignmentPostAction;
use ccp::errors::CCProverError;
use ccp::errors::CUProverError;
use ccp::roadmap::CCProverAlignmentRoadmap;
use ccp::roadmap::CUProverAction;
use ccp::status::CCStatus;
use ccp::status::CUStatus;
use ccp::types::CUAllocation;
use ccp::types::Difficulty;
use ccp::types::EpochParameters;
use ccp::types::GlobalNonce;
use ccp::types::PhysicalCoreId;
use ccp::types::CUID;

fn cu(v: u8) -> CUID {
    CUID::new([v; 32])
}

#[test]
fn actions_take_their_provers() {
    let mut provers: HashMap<PhysicalCoreId, &str> = HashMap::new();
    provers.insert(1, "one");
    provers.insert(2, "two");
    provers.insert(3, "three");
    let actions = vec![
        CUProverAction::create_cu_prover(9, cu(9)),
        CUProverAction::remove_cu_prover(1),
        CUProverAction::new_cc_job_repin(2, 8, cu(8)),
    ];
    let taken = take_provers(&mut provers, &actions);
    assert_eq!(taken, vec![None, Some("one"), Some("two")]);
    assert_eq!(provers.len(), 1);
    assert_eq!(provers[&3], "three");
}

#[test]
fn settling_puts_kept_provers_back() {
    let mut provers: HashMap<PhysicalCoreId, &str> = HashMap::new();
    provers.insert(3, "three");
    let actions = vec![
        CUProverAction::new_cc_job_repin(2, 8, cu(8)),
        CUProverAction::remove_cu_prover(1),
        CUProverAction::create_cu_prover(9, cu(9)),
    ];
    let outcomes = vec![
        Ok(AlignmentPostAction::KeepProver("two")),
        Ok(AlignmentPostAction::Nothing),
        Ok(AlignmentPostAction::KeepProver("new")),
    ];
    assert!(settle_alignment(&mut provers, &actions, outcomes).is_ok());
    assert_eq!(provers.len(), 3);
    assert_eq!(provers[&8], "two");
    assert_eq!(provers[&9], "new");
}

#[test]
fn settling_reports_every_failure_and_keeps_the_rest() {
    let mut provers: HashMap<PhysicalCoreId, &str> = HashMap::new();
    let actions = vec![
        CUProverAction::create_cu_prover(4, cu(4)),
        CUProverAction::create_cu_prover(5, cu(5)),
        CUProverAction::new_cc_job(6, cu(6)),
    ];
    let outcomes = vec![
        Err(CUProverError::logical_cpus_not_found(4)),
        Ok(AlignmentPostAction::KeepProver("five")),
        Err(CUProverError::ChannelError("closed".to_string())),
    ];
    match settle_alignment(&mut provers, &actions, outcomes) {
        Err(CCProverError::CUProverErrors(errors)) => {
            assert_eq!(errors.len(), 2);
            assert!(matches!(errors[0], CUProverError::ThreadAllocation(_)));
            assert!(matches!(&errors[1], CUProverError::ChannelError(m) if m == "closed"));
        }
        other => panic!("unexpected {other:?}"),
    }
    assert_eq!(provers[&5], "five");
}

#[test]
fn a_roadmap_finds_the_provers_it_works_on() {
    let epoch = EpochParameters::new(GlobalNonce::new([1; 32]), Difficulty::new([1; 32]));
    let mut provers: HashMap<PhysicalCoreId, String> = HashMap::new();
    let mut statuses: HashMap<PhysicalCoreId, CUStatus> = HashMap::new();
    for core in [1u32, 2, 3] {
        provers.insert(core, format!("prover {core}"));
        statuses.insert(core, CUStatus::Running { cu_id: cu(core as u8) });
    }
    let mut allocation = CUAllocation::new();
    allocation.insert(2, cu(20));
    allocation.insert(7, cu(7));
    let roadmap = CCProverAlignmentRoadmap::create_roadmap(
        allocation,
        epoch,
        &statuses,
        CCStatus::Running { epoch },
    );
    let taken = take_provers(&mut provers, &roadmap.actions);
    assert_eq!(taken.len(), roadmap.actions.len());
    for (action, prover) in roadmap.actions.iter().zip(taken.iter()) {
        match action {
            CUProverAction::CreateCUProver(_) => assert!(prover.is_none()),
            CUProverAction::RemoveCUProver(s) => {
                assert_eq!(prover.as_deref(), Some(format!("prover {}", s.current_core_id).as_str()))
            }
            CUProverAction::NewCCJob(s) => {
                assert_eq!(prover.as_deref(), Some(format!("prover {}", s.current_core_id).as_str()))
            }
            CUProverAction::NewCCJobWithRepining(s) => {
                assert_eq!(prover.as_deref(), Some(format!("prover {}", s.current_core_id).as_str()))
            }
        }
    }
    // the prover of core 2 gets a new job and two of the three provers are taken for the
    // move to core 7 and the removal
    assert_eq!(provers.len(), 0);
}

#[test]
fn provers_are_found_only_once_each() {
    let mut provers: HashMap<PhysicalCoreId, u8> = HashMap::new();
    provers.insert(1, 10);
    provers.insert(2, 20);
    let fine = vec![
        CUProverAction::new_cc_job(1, cu(1)),
        CUProverAction::create_cu_prover(1, cu(1)),
        CUProverAction::remove_cu_prover(2),
    ];
    assert!(actions_find_provers(&provers, &fine));
    let missing = vec![CUProverAction::remove_cu_prover(3)];
    assert!(!actions_find_provers(&provers, &missing));
    let twice = vec![
        CUProverAction::new_cc_job(1, cu(1)),
        CUProverAction::new_cc_job_repin(1, 5, cu(5)),
    ];
    assert!(!actions_find_provers(&provers, &twice));
}

#[test]
fn a_successful_alignment_leaves_provers_on_the_allocated_cores() {
    let epoch = EpochParameters::new(GlobalNonce::new([2; 32]), Difficulty::new([1; 32]));
    let mut provers: HashMap<PhysicalCoreId, String> = HashMap::new();
    let mut statuses: HashMap<PhysicalCoreId, CUStatus> = HashMap::new();
    for core in [1u32, 2, 3] {
        provers.insert(core, format!("prover {core}"));
        statuses.insert(core, CUStatus::Running { cu_id: cu(core as u8) });
    }
    let mut allocation = CUAllocation::new();
    allocation.insert(2, cu(20));
    allocation.insert(7, cu(7));
    allocation.insert(8, cu(8));
    allocation.insert(9, cu(9));
    let roadmap = CCProverAlignmentRoadmap::create_roadmap(
        allocation.clone(),
        epoch,
        &statuses,
        CCStatus::Running { epoch },
    );
    let taken = take_provers(&mut provers, &roadmap.actions);
    let outcomes = roadmap
        .actions
        .iter()
        .zip(taken)
        .map(|(action, prover)| match action {
            CUProverAction::RemoveCUProver(_) => Ok(AlignmentPostAction::Nothing),
            _ => Ok(AlignmentPostAction::KeepProver(prover.unwrap_or_else(|| "new".to_string()))),
        })
        .collect::<Vec<_>>();
    assert!(settle_alignment(&mut provers, &roadmap.actions, outcomes).is_ok());
    let mut cores: Vec<PhysicalCoreId> = provers.keys().copied().collect();
    cores.sort();
    assert_eq!(cores, vec![2, 7, 8, 9]);
    assert_eq!(provers[&2], "prover 2");
}

#[test]
fn cleanup_pauses_before_removing_proofs() {
    assert_eq!(
        pre_alignment_steps(CUProverPreAction::cleanup_proof_cache()),
        vec![PreAlignmentStep::PauseProvers, PreAlignmentStep::RemoveProofs]
    );
    assert!(pre_alignment_steps(CUProverPreAction::no_action()).is_empty());
}
