use std::collections::HashMap;

use rand::rngs::SmallRng;
use rand::seq::SliceRandom;
use rand::Rng;
use rand::SeedableRng;

use ccp::roadmap::CCProverAlignmentRoadmap;
use ccp::roadmap::CUProverAction;
use ccp::roadmap::CUProverPreAction;
use ccp::status::CCStatus;
use ccp::status::CUStatus;
use ccp::types::CUAllocation;
use ccp::types::Difficulty;
use ccp::types::EpochParameters;
use ccp::types::GlobalNonce;
use ccp::types::PhysicalCoreId;
use ccp::types::CUID;

fn generate_cu_id(value: u8) -> CUID {
    CUID::new([value; 32])
}

fn generate_epoch_params(global_nonce: u8, difficulty: u8) -> EpochParameters {
    EpochParameters::new(GlobalNonce::new([global_nonce; 32]), Difficulty::new([difficulty; 32]))
}

fn generate_random_allocation(
    rng: &mut SmallRng,
    size: usize,
    cores: std::ops::Range<u8>,
) -> CUAllocation {
    let mut cores: Vec<u8> = cores.collect();
    cores.shuffle(rng);
    let mut allocation = CUAllocation::new();
    for core in cores.into_iter().take(size) {
        let cu_id = CUID::new(rng.gen::<[u8; 32]>());
        allocation.insert(core as PhysicalCoreId, cu_id);
    }
    allocation
}

fn running(cu_id: CUID) -> CUStatus {
    CUStatus::Running { cu_id }
}

#[derive(Debug)]
struct MockProver {
    pub status: CUStatus,
}

impl MockProver {
    pub fn new(cu_id: CUID) -> Self {
        Self {
            status: CUStatus::Running { cu_id },
        }
    }
}

impl From<CUID> for MockProver {
    fn from(value: CUID) -> Self {
        Self::new(value)
    }
}

fn statuses(provers: &HashMap<PhysicalCoreId, MockProver>) -> HashMap<PhysicalCoreId, CUStatus> {
    provers
        .iter()
        .map(|(core_id, prover)| (*core_id, prover.status))
        .collect()
}

#[test]
fn alignment_works_if_prover_idle() {
    let mut new_allocation = CUAllocation::new();
    let allocation_1 = (1, generate_cu_id(1));
    new_allocation.insert(allocation_1.0, allocation_1.1);

    let allocation_2 = (2, generate_cu_id(2));
    new_allocation.insert(allocation_2.0, allocation_2.1);

    let allocation_3 = (3, generate_cu_id(3));
    new_allocation.insert(allocation_3.0, allocation_3.1);

    let new_epoch = generate_epoch_params(1, 1);
    let current_allocation: HashMap<PhysicalCoreId, CUStatus> = HashMap::new();
    let current_status = CCStatus::Idle;

    let actual_roadmap = CCProverAlignmentRoadmap::create_roadmap(
        new_allocation,
        new_epoch,
        &current_allocation,
        current_status,
    );
    let pre_action = CUProverPreAction::cleanup_proof_cache();
    let expected_actions = vec![
        CUProverAction::create_cu_prover(allocation_1.0, allocation_1.1),
        CUProverAction::create_cu_prover(allocation_2.0, allocation_2.1),
        CUProverAction::create_cu_prover(allocation_3.0, allocation_3.1),
    ];
    let expected_roadmap = CCProverAlignmentRoadmap {
        pre_action,
        actions: expected_actions,
        epoch: new_epoch,
    };

    assert_eq!(actual_roadmap, expected_roadmap);
}

#[test]
fn applying_same_roadmap_idempotent() {
    let mut new_allocation = CUAllocation::new();
    let allocation_1 = (1, generate_cu_id(1));
    new_allocation.insert(allocation_1.0, allocation_1.1);

    let allocation_2 = (2, generate_cu_id(2));
    new_allocation.insert(allocation_2.0, allocation_2.1);

    let epoch = generate_epoch_params(1, 1);
    let current_status = CCStatus::Running { epoch };

    let mut current_allocation: HashMap<PhysicalCoreId, CUStatus> = HashMap::new();
    current_allocation.insert(allocation_1.0, running(allocation_1.1));
    current_allocation.insert(allocation_2.0, running(allocation_2.1));

    let actual_roadmap = CCProverAlignmentRoadmap::create_roadmap(
        new_allocation.clone(),
        epoch,
        &current_allocation,
        current_status,
    );

    assert!(actual_roadmap.actions.is_empty());
}

#[test]
fn add_new_peer() {
    let mut new_allocation = CUAllocation::new();
    let allocation_1 = (1, generate_cu_id(1));
    new_allocation.insert(allocation_1.0, allocation_1.1);

    let allocation_2 = (2, generate_cu_id(2));
    new_allocation.insert(allocation_2.0, allocation_2.1);

    let allocation_3 = (3, generate_cu_id(3));
    new_allocation.insert(allocation_3.0, allocation_3.1);

    let epoch = generate_epoch_params(1, 1);
    let current_status = CCStatus::Running { epoch };

    let mut current_allocation: HashMap<PhysicalCoreId, CUStatus> = HashMap::new();
    current_allocation.insert(allocation_1.0, running(allocation_1.1));
    current_allocation.insert(allocation_2.0, running(allocation_2.1));

    let actual_roadmap = CCProverAlignmentRoadmap::create_roadmap(
        new_allocation.clone(),
        epoch,
        &current_allocation,
        current_status,
    );

    let pre_action = CUProverPreAction::cleanup_proof_cache();
    let expected_actions = vec![CUProverAction::create_cu_prover(
        allocation_3.0,
        allocation_3.1,
    )];
    let expected_roadmap = CCProverAlignmentRoadmap {
        pre_action,
        actions: expected_actions,
        epoch,
    };

    assert_eq!(actual_roadmap, expected_roadmap);
}

#[test]
fn remove_peer() {
    let mut new_allocation = CUAllocation::new();
    let allocation_1 = (1, generate_cu_id(1));
    new_allocation.insert(allocation_1.0, allocation_1.1);

    let allocation_2 = (2, generate_cu_id(2));
    new_allocation.insert(allocation_2.0, allocation_2.1);

    let epoch = generate_epoch_params(1, 1);
    let current_status = CCStatus::Running { epoch };

    let mut current_allocation: HashMap<PhysicalCoreId, CUStatus> = HashMap::new();
    current_allocation.insert(allocation_1.0, running(allocation_1.1));
    current_allocation.insert(allocation_2.0, running(allocation_2.1));
    let allocation_3 = (3, generate_cu_id(3));
    current_allocation.insert(allocation_3.0, running(allocation_3.1));

    let actual_roadmap = CCProverAlignmentRoadmap::create_roadmap(
        new_allocation.clone(),
        epoch,
        &current_allocation,
        current_status,
    );

    let pre_action = CUProverPreAction::cleanup_proof_cache();
    let expected_actions = vec![CUProverAction::remove_cu_prover(allocation_3.0)];
    let expected_roadmap = CCProverAlignmentRoadmap {
        pre_action,
        actions: expected_actions,
        epoch,
    };

    assert_eq!(actual_roadmap, expected_roadmap);
}

#[test]
fn new_epoch() {
    let mut new_allocation = CUAllocation::new();
    let allocation_1 = (1, generate_cu_id(1));
    new_allocation.insert(allocation_1.0, allocation_1.1);

    let allocation_2 = (2, generate_cu_id(2));
    new_allocation.insert(allocation_2.0, allocation_2.1);

    let allocation_3 = (3, generate_cu_id(3));
    new_allocation.insert(allocation_3.0, allocation_3.1);

    let mut current_allocation: HashMap<PhysicalCoreId, CUStatus> = HashMap::new();
    current_allocation.insert(allocation_1.0, running(allocation_1.1));
    current_allocation.insert(allocation_2.0, running(allocation_2.1));
    current_allocation.insert(allocation_3.0, running(allocation_3.1));
    let current_epoch = generate_epoch_params(1, 1);
    let current_status = CCStatus::Running {
        epoch: current_epoch,
    };

    let new_epoch = generate_epoch_params(2, 1);
    let actual_roadmap = CCProverAlignmentRoadmap::create_roadmap(
        new_allocation.clone(),
        new_epoch,
        &current_allocation,
        current_status,
    );

    let pre_action = CUProverPreAction::cleanup_proof_cache();
    let expected_actions = vec![
        CUProverAction::new_cc_job(allocation_1.0, allocation_1.1),
        CUProverAction::new_cc_job(allocation_2.0, allocation_2.1),
        CUProverAction::new_cc_job(allocation_3.0, allocation_3.1),
    ];
    let expected_roadmap = CCProverAlignmentRoadmap {
        pre_action,
        actions: expected_actions,
        epoch: new_epoch,
    };

    assert_eq!(actual_roadmap, expected_roadmap);
}

#[test]
fn same_epoch_new_jobs() {
    let mut new_allocation = CUAllocation::new();
    let allocation_1 = (1, generate_cu_id(1));
    let allocation_2 = (2, generate_cu_id(2));
    let allocation_3 = (3, generate_cu_id(3));

    new_allocation.insert(allocation_1.0, allocation_2.1);
    new_allocation.insert(allocation_2.0, allocation_3.1);
    new_allocation.insert(allocation_3.0, allocation_1.1);

    let epoch = generate_epoch_params(2, 1);
    let current_status = CCStatus::Running { epoch };

    let mut current_allocation: HashMap<PhysicalCoreId, CUStatus> = HashMap::new();
    current_allocation.insert(allocation_1.0, running(allocation_1.1));
    current_allocation.insert(allocation_2.0, running(allocation_2.1));
    current_allocation.insert(allocation_3.0, running(allocation_3.1));

    let actual_roadmap = CCProverAlignmentRoadmap::create_roadmap(
        new_allocation.clone(),
        epoch,
        &current_allocation,
        current_status,
    );

    let pre_action = CUProverPreAction::cleanup_proof_cache();
    let expected_actions = vec![
        CUProverAction::new_cc_job(allocation_1.0, allocation_2.1),
        CUProverAction::new_cc_job(allocation_2.0, allocation_3.1),
        CUProverAction::new_cc_job(allocation_3.0, allocation_1.1),
    ];
    let expected_roadmap = CCProverAlignmentRoadmap {
        pre_action,
        actions: expected_actions,
        epoch,
    };

    assert_eq!(actual_roadmap, expected_roadmap);
}

#[test]
fn repinning_works() {
    let mut new_allocation = CUAllocation::new();
    let allocation_1 = (1, generate_cu_id(1));
    let allocation_2 = (2, generate_cu_id(2));
    let allocation_3 = (3, generate_cu_id(3));
    let allocation_4 = (4, generate_cu_id(4));

    new_allocation.insert(allocation_2.0, allocation_2.1);
    new_allocation.insert(allocation_3.0, allocation_3.1);
    new_allocation.insert(allocation_4.0, allocation_4.1);

    let epoch = generate_epoch_params(2, 1);
    let current_status = CCStatus::Running { epoch };

    let mut current_allocation: HashMap<PhysicalCoreId, CUStatus> = HashMap::new();
    current_allocation.insert(allocation_1.0, running(allocation_1.1));
    current_allocation.insert(allocation_2.0, running(allocation_2.1));
    current_allocation.insert(allocation_3.0, running(allocation_3.1));

    let actual_roadmap = CCProverAlignmentRoadmap::create_roadmap(
        new_allocation.clone(),
        epoch,
        &current_allocation,
        current_status,
    );

    let pre_action = CUProverPreAction::cleanup_proof_cache();
    let expected_actions = vec![CUProverAction::new_cc_job_repin(
        allocation_1.0,
        allocation_4.0,
        allocation_4.1,
    )];
    let expected_roadmap = CCProverAlignmentRoadmap {
        pre_action,
        actions: expected_actions,
        epoch,
    };

    assert_eq!(actual_roadmap, expected_roadmap);
}

#[test]
fn create_more_then_remove() {
    let mut new_allocation = CUAllocation::new();
    let allocation_1 = (1, generate_cu_id(1));
    let allocation_2 = (2, generate_cu_id(2));
    let allocation_3 = (3, generate_cu_id(3));
    let allocation_4 = (4, generate_cu_id(4));
    let allocation_5 = (5, generate_cu_id(5));

    new_allocation.insert(allocation_2.0, allocation_2.1);
    new_allocation.insert(allocation_3.0, allocation_3.1);
    new_allocation.insert(allocation_4.0, allocation_4.1);
    new_allocation.insert(allocation_5.0, allocation_5.1);

    let epoch = generate_epoch_params(2, 1);
    let current_status = CCStatus::Running { epoch };

    let mut current_allocation: HashMap<PhysicalCoreId, CUStatus> = HashMap::new();
    current_allocation.insert(allocation_1.0, running(allocation_1.1));
    current_allocation.insert(allocation_2.0, running(allocation_2.1));
    current_allocation.insert(allocation_3.0, running(allocation_3.1));

    let actual_roadmap = CCProverAlignmentRoadmap::create_roadmap(
        new_allocation.clone(),
        epoch,
        &current_allocation,
        current_status,
    );

    let pre_action_1 = CUProverPreAction::cleanup_proof_cache();
    let expected_actions_1 = vec![
        CUProverAction::new_cc_job_repin(allocation_1.0, allocation_4.0, allocation_4.1),
        CUProverAction::create_cu_prover(allocation_5.0, allocation_5.1),
    ];
    let expected_roadmap_1 = CCProverAlignmentRoadmap {
        pre_action: pre_action_1,
        actions: expected_actions_1,
        epoch,
    };

    let pre_action_2 = CUProverPreAction::cleanup_proof_cache();
    let expected_actions_2 = vec![
        CUProverAction::new_cc_job_repin(allocation_1.0, allocation_5.0, allocation_5.1),
        CUProverAction::create_cu_prover(allocation_4.0, allocation_4.1),
    ];
    let expected_roadmap_2 = CCProverAlignmentRoadmap {
        pre_action: pre_action_2,
        actions: expected_actions_2,
        epoch,
    };

    // core 1 can take the 4th unit and the 5th gets a new prover, or the other way round
    assert!((actual_roadmap == expected_roadmap_1) || (actual_roadmap == expected_roadmap_2));
}

#[test]
fn remove_more_then_create() {
    let mut new_allocation = CUAllocation::new();
    let allocation_1 = (1, generate_cu_id(1));
    let allocation_2 = (2, generate_cu_id(2));
    let allocation_3 = (3, generate_cu_id(3));
    let allocation_4 = (4, generate_cu_id(4));

    new_allocation.insert(allocation_3.0, allocation_3.1);
    new_allocation.insert(allocation_4.0, allocation_4.1);

    let epoch = generate_epoch_params(2, 1);
    let current_status = CCStatus::Running { epoch };

    let mut current_allocation: HashMap<PhysicalCoreId, CUStatus> = HashMap::new();
    current_allocation.insert(allocation_1.0, running(allocation_1.1));
    current_allocation.insert(allocation_2.0, running(allocation_2.1));
    current_allocation.insert(allocation_3.0, running(allocation_3.1));

    let actual_roadmap = CCProverAlignmentRoadmap::create_roadmap(
        new_allocation.clone(),
        epoch,
        &current_allocation,
        current_status,
    );

    let pre_action_1 = CUProverPreAction::cleanup_proof_cache();
    let expected_actions_1 = vec![
        CUProverAction::new_cc_job_repin(allocation_1.0, allocation_4.0, allocation_4.1),
        CUProverAction::remove_cu_prover(allocation_2.0),
    ];
    let expected_roadmap_1 = CCProverAlignmentRoadmap {
        pre_action: pre_action_1,
        actions: expected_actions_1,
        epoch,
    };

    let pre_action_2 = CUProverPreAction::cleanup_proof_cache();
    let expected_actions_2 = vec![
        CUProverAction::new_cc_job_repin(allocation_2.0, allocation_4.0, allocation_4.1),
        CUProverAction::remove_cu_prover(allocation_1.0),
    ];
    let expected_roadmap_2 = CCProverAlignmentRoadmap {
        pre_action: pre_action_2,
        actions: expected_actions_2,
        epoch,
    };

    // prover 1 can take the 4th unit and prover 2 goes, or the other way round
    assert!((actual_roadmap == expected_roadmap_1) || (actual_roadmap == expected_roadmap_2));
}

#[test]
fn consecutive_repinnings() {
    const ITERATIONS: usize = 1000;
    const CORES: u8 = 128;
    const SEED: u64 = 0x0123456789ABCDEF;

    let mut rng = SmallRng::seed_from_u64(SEED);
    let cores_distribution = rand::distributions::Uniform::from(0..CORES + 1);

    let mut current_allocation: Option<CUAllocation> = None;
    let mut prover_state = HashMap::<PhysicalCoreId, MockProver>::new();
    let mut current_epoch = generate_epoch_params(0xFF, 1);

    let apply_roadmap = |prover_state: &mut HashMap<PhysicalCoreId, MockProver>,
                         roadmap: CCProverAlignmentRoadmap| {
        for action in roadmap.actions {
            match action {
                CUProverAction::CreateCUProver(state) => {
                    let result = prover_state.insert(state.new_core_id, state.new_cu_id.into());
                    assert!(result.is_none())
                }
                CUProverAction::RemoveCUProver(state) => {
                    let result = prover_state.remove(&state.current_core_id);
                    assert!(result.is_some())
                }
                CUProverAction::NewCCJob(state) => {
                    *prover_state.get_mut(&state.current_core_id).unwrap() = state.new_cu_id.into();
                }
                CUProverAction::NewCCJobWithRepining(state) => {
                    let result = prover_state.remove(&state.current_core_id);
                    assert!(result.is_some());
                    let result = prover_state.insert(state.new_core_id, state.new_cu_id.into());
                    assert!(result.is_none())
                }
            }
        }
    };

    let check_prover_state = |prover_state: &HashMap<PhysicalCoreId, MockProver>,
                              current_allocation: &CUAllocation| {
        for (core_id, prover) in prover_state.iter() {
            let allocated_cu_id = current_allocation.get(core_id).unwrap();
            match prover.status {
                CUStatus::Idle => panic!("prover running but was not allocated"),
                CUStatus::Running { cu_id } if cu_id != *allocated_cu_id => {
                    panic!("expected matching cu_id")
                }
                _ => continue,
            }
        }

        for (allocated_core_id, allocated_cu_id) in current_allocation.iter() {
            let prover = prover_state.get(allocated_core_id).unwrap();
            match prover.status {
                CUStatus::Idle => panic!("expected running prover"),
                CUStatus::Running { cu_id } if cu_id != *allocated_cu_id => {
                    panic!("expected matching cu_id")
                }
                _ => continue,
            }
        }
    };

    for i in 0..ITERATIONS {
        let allocation_size = rng.sample(&cores_distribution);
        let new_allocation =
            generate_random_allocation(&mut rng, allocation_size as usize, 0..CORES);
        let new_epoch = generate_epoch_params((i % 256) as u8, 1);
        let status = if current_allocation.is_some() {
            CCStatus::Running {
                epoch: current_epoch,
            }
        } else {
            CCStatus::Idle
        };

        let roadmap = CCProverAlignmentRoadmap::create_roadmap(
            new_allocation.clone(),
            new_epoch,
            &statuses(&prover_state),
            status,
        );

        apply_roadmap(&mut prover_state, roadmap);
        current_epoch = new_epoch;
        current_allocation = Some(new_allocation);
        check_prover_state(&prover_state, current_allocation.as_ref().unwrap())
    }
}

// ------------------------------------------------------------------------------------------
// Further cases.

#[test]
fn same_epoch_and_allocation_gives_no_action_and_no_cleanup() {
    let mut new_allocation = CUAllocation::new();
    new_allocation.insert(7, generate_cu_id(7));
    let epoch = generate_epoch_params(3, 3);
    let mut current_allocation: HashMap<PhysicalCoreId, CUStatus> = HashMap::new();
    current_allocation.insert(7, running(generate_cu_id(7)));

    let roadmap = CCProverAlignmentRoadmap::create_roadmap(
        new_allocation,
        epoch,
        &current_allocation,
        CCStatus::Running { epoch },
    );
    assert!(roadmap.actions.is_empty());
    assert!(matches!(roadmap.pre_action, CUProverPreAction::NoAction));
    assert_eq!(roadmap.epoch, epoch);
}

#[test]
fn idle_prover_on_allocated_core_gets_a_job() {
    let mut new_allocation = CUAllocation::new();
    new_allocation.insert(4, generate_cu_id(9));
    let epoch = generate_epoch_params(3, 3);
    let mut current_allocation: HashMap<PhysicalCoreId, CUStatus> = HashMap::new();
    current_allocation.insert(4, CUStatus::Idle);

    let roadmap = CCProverAlignmentRoadmap::create_roadmap(
        new_allocation,
        epoch,
        &current_allocation,
        CCStatus::Running { epoch },
    );
    assert_eq!(roadmap.actions, vec![CUProverAction::new_cc_job(4, generate_cu_id(9))]);
    assert!(matches!(roadmap.pre_action, CUProverPreAction::NoAction));
}

#[test]
fn empty_allocation_removes_every_prover() {
    let epoch = generate_epoch_params(5, 1);
    let mut current_allocation: HashMap<PhysicalCoreId, CUStatus> = HashMap::new();
    current_allocation.insert(1, running(generate_cu_id(1)));
    current_allocation.insert(2, running(generate_cu_id(2)));

    let roadmap = CCProverAlignmentRoadmap::create_roadmap(
        CUAllocation::new(),
        epoch,
        &current_allocation,
        CCStatus::Idle,
    );
    let expected = CCProverAlignmentRoadmap {
        pre_action: CUProverPreAction::cleanup_proof_cache(),
        actions: vec![
            CUProverAction::remove_cu_prover(1),
            CUProverAction::remove_cu_prover(2),
        ],
        epoch,
    };
    assert_eq!(roadmap, expected);
    assert!(matches!(roadmap.pre_action, CUProverPreAction::CleanupProofCache));
}

#[test]
fn roadmaps_of_different_epochs_differ() {
    let a = CCProverAlignmentRoadmap {
        pre_action: CUProverPreAction::no_action(),
        actions: vec![],
        epoch: generate_epoch_params(1, 1),
    };
    let b = CCProverAlignmentRoadmap {
        pre_action: CUProverPreAction::no_action(),
        actions: vec![],
        epoch: generate_epoch_params(2, 1),
    };
    assert_ne!(a, b);
}

#[test]
fn roadmap_equality_ignores_order_and_pre_action() {
    let epoch = generate_epoch_params(1, 1);
    let a = CCProverAlignmentRoadmap {
        pre_action: CUProverPreAction::no_action(),
        actions: vec![
            CUProverAction::remove_cu_prover(1),
            CUProverAction::create_cu_prover(2, generate_cu_id(2)),
        ],
        epoch,
    };
    let b = CCProverAlignmentRoadmap {
        pre_action: CUProverPreAction::cleanup_proof_cache(),
        actions: vec![
            CUProverAction::create_cu_prover(2, generate_cu_id(2)),
            CUProverAction::remove_cu_prover(1),
        ],
        epoch,
    };
    assert_eq!(a, b);
    let c = CCProverAlignmentRoadmap {
        pre_action: CUProverPreAction::no_action(),
        actions: vec![CUProverAction::remove_cu_prover(1)],
        epoch,
    };
    assert_ne!(a, c);
}

#[test]
fn applying_a_roadmap_aligns_statuses() {
    let epoch = generate_epoch_params(9, 2);
    let mut current_allocation: HashMap<PhysicalCoreId, CUStatus> = HashMap::new();
    current_allocation.insert(1, running(generate_cu_id(1)));
    current_allocation.insert(2, CUStatus::Idle);
    current_allocation.insert(3, running(generate_cu_id(3)));
    let mut new_allocation = CUAllocation::new();
    new_allocation.insert(2, generate_cu_id(20));
    new_allocation.insert(5, generate_cu_id(50));
    new_allocation.insert(6, generate_cu_id(60));
    new_allocation.insert(7, generate_cu_id(70));

    let roadmap = CCProverAlignmentRoadmap::create_roadmap(
        new_allocation.clone(),
        epoch,
        &current_allocation,
        CCStatus::Running { epoch },
    );
    let mut state = current_allocation.clone();
    for action in roadmap.actions {
        match action {
            CUProverAction::CreateCUProver(s) => {
                assert!(state.insert(s.new_core_id, running(s.new_cu_id)).is_none());
            }
            CUProverAction::RemoveCUProver(s) => {
                assert!(state.remove(&s.current_core_id).is_some());
            }
            CUProverAction::NewCCJob(s) => {
                assert!(state.insert(s.current_core_id, running(s.new_cu_id)).is_some());
            }
            CUProverAction::NewCCJobWithRepining(s) => {
                assert!(state.remove(&s.current_core_id).is_some());
                assert!(state.insert(s.new_core_id, running(s.new_cu_id)).is_none());
            }
        }
    }
    let expected: HashMap<PhysicalCoreId, CUStatus> = new_allocation
        .iter()
        .map(|(core_id, cu_id)| (*core_id, running(*cu_id)))
        .collect();
    assert_eq!(state, expected);
}

#[test]
fn action_constructors_fill_their_states() {
    let cu_id = generate_cu_id(42);
    match CUProverAction::new_cc_job_repin(1, 2, cu_id) {
        CUProverAction::NewCCJobWithRepining(s) => {
            assert_eq!(s.current_core_id, 1);
            assert_eq!(s.new_core_id, 2);
            assert_eq!(s.new_cu_id, cu_id);
        }
        other => panic!("unexpected action {other:?}"),
    }
    match CUProverAction::create_cu_prover(3, cu_id) {
        CUProverAction::CreateCUProver(s) => {
            assert_eq!(s.new_core_id, 3);
            assert_eq!(s.new_cu_id, cu_id);
        }
        other => panic!("unexpected action {other:?}"),
    }
    assert_ne!(
        CUProverAction::new_cc_job(1, cu_id),
        CUProverAction::new_cc_job(1, generate_cu_id(43))
    );
    assert_eq!(CUProverAction::remove_cu_prover(5), CUProverAction::remove_cu_prover(5));
}
