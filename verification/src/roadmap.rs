//! The alignment roadmap: the actions that bring the set of running compute-unit provers
//! in line with a new allocation of compute units to physical cores.

use std::collections::HashMap;
use std::collections::HashSet;
use vstd::prelude::*;
use vstd::std_specs::hash::spec_hash_map_iter;
use vstd::std_specs::hash::spec_keys_iter;
use vstd::std_specs::iter::IteratorSpec;

use crate::status::CCStatus;
use crate::status::CUStatus;
use crate::types::CUAllocation;
use crate::types::EpochParameters;
use crate::types::PhysicalCoreId;
use crate::types::CUID;

verus! {

broadcast use vstd::std_specs::hash::group_hash_axioms;

#[derive(Clone, Copy, Debug, Hash)]
pub struct CreateCUProverState {
    pub new_core_id: PhysicalCoreId,
    pub new_cu_id: CUID,
}

#[derive(Clone, Copy, Debug, Hash)]
pub struct RemoveCUProverState {
    pub current_core_id: PhysicalCoreId,
}

#[derive(Clone, Copy, Debug, Hash)]
pub struct NewCCJobState {
    pub current_core_id: PhysicalCoreId,
    pub new_cu_id: CUID,
}

#[derive(Clone, Copy, Debug, Hash)]
pub struct NewCCJobWithRepiningState {
    pub current_core_id: PhysicalCoreId,
    pub new_core_id: PhysicalCoreId,
    pub new_cu_id: CUID,
}

impl CreateCUProverState {
    pub fn new(new_core_id: PhysicalCoreId, new_cu_id: CUID) -> (r: Self)
        ensures
            r == (CreateCUProverState { new_core_id, new_cu_id }),
    {
        Self { new_core_id, new_cu_id }
    }
}

impl RemoveCUProverState {
    pub fn new(current_core_id: PhysicalCoreId) -> (r: Self)
        ensures
            r == (RemoveCUProverState { current_core_id }),
    {
        Self { current_core_id }
    }
}

impl NewCCJobState {
    pub fn new(current_core_id: PhysicalCoreId, new_cu_id: CUID) -> (r: Self)
        ensures
            r == (NewCCJobState { current_core_id, new_cu_id }),
    {
        Self { current_core_id, new_cu_id }
    }
}

impl NewCCJobWithRepiningState {
    pub fn new(current_core_id: PhysicalCoreId, new_core_id: PhysicalCoreId, new_cu_id: CUID) -> (r:
        Self)
        ensures
            r == (NewCCJobWithRepiningState { current_core_id, new_core_id, new_cu_id }),
    {
        Self { current_core_id, new_core_id, new_cu_id }
    }
}

/// Done once, before the actions, on stopped provers.
#[derive(Clone, Copy, Debug, PartialEq, Eq, Hash, Structural)]
pub enum CUProverPreAction {
    NoAction,
    /// Remove all collected proofs: the epoch has changed, old proofs are of no use.
    CleanupProofCache,
}

impl CUProverPreAction {
    pub fn cleanup_proof_cache() -> (r: Self)
        ensures
            r == CUProverPreAction::CleanupProofCache,
    {
        CUProverPreAction::CleanupProofCache
    }

    pub fn no_action() -> (r: Self)
        ensures
            r == CUProverPreAction::NoAction,
    {
        CUProverPreAction::NoAction
    }
}

/// A single step towards the new allocation.
#[derive(Clone, Copy, Debug, Hash)]
pub enum CUProverAction {
    /// Create a prover on `new_core_id` that proves `new_cu_id`.
    CreateCUProver(CreateCUProverState),
    /// Stop and drop the prover on `current_core_id`.
    RemoveCUProver(RemoveCUProverState),
    /// Run a new job, for `new_cu_id`, on the prover on `current_core_id`.
    NewCCJob(NewCCJobState),
    /// Move the prover on `current_core_id` to `new_core_id` and run a job for `new_cu_id`.
    NewCCJobWithRepining(NewCCJobWithRepiningState),
}

impl CUProverAction {
    pub fn create_cu_prover(new_core_id: PhysicalCoreId, new_cu_id: CUID) -> (r: Self)
        ensures
            r == CUProverAction::CreateCUProver(CreateCUProverState { new_core_id, new_cu_id }),
    {
        CUProverAction::CreateCUProver(CreateCUProverState::new(new_core_id, new_cu_id))
    }

    pub fn remove_cu_prover(current_core_id: PhysicalCoreId) -> (r: Self)
        ensures
            r == CUProverAction::RemoveCUProver(RemoveCUProverState { current_core_id }),
    {
        CUProverAction::RemoveCUProver(RemoveCUProverState::new(current_core_id))
    }

    pub fn new_cc_job(current_core_id: PhysicalCoreId, new_cu_id: CUID) -> (r: Self)
        ensures
            r == CUProverAction::NewCCJob(NewCCJobState { current_core_id, new_cu_id }),
    {
        CUProverAction::NewCCJob(NewCCJobState::new(current_core_id, new_cu_id))
    }

    pub fn new_cc_job_repin(
        current_core_id: PhysicalCoreId,
        new_core_id: PhysicalCoreId,
        new_cu_id: CUID,
    ) -> (r: Self)
        ensures
            r == CUProverAction::NewCCJobWithRepining(
                NewCCJobWithRepiningState { current_core_id, new_core_id, new_cu_id },
            ),
    {
        CUProverAction::NewCCJobWithRepining(
            NewCCJobWithRepiningState::new(current_core_id, new_core_id, new_cu_id),
        )
    }
}

impl PartialEq for CUProverAction {
    fn eq(&self, other: &Self) -> (r: bool) {
        match (self, other) {
            (CUProverAction::CreateCUProver(a), CUProverAction::CreateCUProver(b)) => {
                a.new_core_id == b.new_core_id && a.new_cu_id == b.new_cu_id
            },
            (CUProverAction::RemoveCUProver(a), CUProverAction::RemoveCUProver(b)) => {
                a.current_core_id == b.current_core_id
            },
            (CUProverAction::NewCCJob(a), CUProverAction::NewCCJob(b)) => {
                a.current_core_id == b.current_core_id && a.new_cu_id == b.new_cu_id
            },
            (
                CUProverAction::NewCCJobWithRepining(a),
                CUProverAction::NewCCJobWithRepining(b),
            ) => {
                a.current_core_id == b.current_core_id && a.new_core_id == b.new_core_id
                    && a.new_cu_id == b.new_cu_id
            },
            _ => false,
        }
    }
}

impl vstd::std_specs::cmp::PartialEqSpecImpl for CUProverAction {
    open spec fn obeys_eq_spec() -> bool {
        true
    }

    open spec fn eq_spec(&self, other: &Self) -> bool {
        *self == *other
    }
}

impl Eq for CUProverAction {}

/// Aligns the prover with the state the network wants: a set of actions which, applied to the
/// current provers, make them prove exactly the new allocation in the new epoch.
#[derive(Debug)]
pub struct CCProverAlignmentRoadmap {
    pub pre_action: CUProverPreAction,
    pub actions: Vec<CUProverAction>,
    pub epoch: EpochParameters,
}

/// Whether `actions` contains `action`.
fn contains_action(actions: &Vec<CUProverAction>, action: &CUProverAction) -> (r: bool)
    ensures
        r == actions@.contains(*action),
{
    let mut i: usize = 0;
    while i < actions.len()
        invariant
            0 <= i <= actions@.len(),
            forall|j: int| 0 <= j < i ==> actions@[j] != *action,
        decreases actions@.len() - i,
    {
        if actions[i] == *action {
            return true;
        }
        i = i + 1;
    }
    false
}

/// Whether every action of `a` also occurs in `b`.
fn all_contained(a: &Vec<CUProverAction>, b: &Vec<CUProverAction>) -> (r: bool)
    ensures
        r == a@.to_set().subset_of(b@.to_set()),
{
    let mut i: usize = 0;
    while i < a.len()
        invariant
            0 <= i <= a@.len(),
            forall|j: int| 0 <= j < i ==> b@.contains(#[trigger] a@[j]),
        decreases a@.len() - i,
    {
        if !contains_action(b, &a[i]) {
            assert(!a@.to_set().subset_of(b@.to_set())) by {
                assert(a@.to_set().contains(a@[i as int]));
            }
            return false;
        }
        i = i + 1;
    }
    assert(a@.to_set().subset_of(b@.to_set())) by {
        assert forall|x: CUProverAction| a@.to_set().contains(x) implies b@.to_set().contains(
            x,
        ) by {
            let j = choose|j: int| 0 <= j < a@.len() && a@[j] == x;
            assert(b@.contains(a@[j]));
        }
    }
    true
}

impl PartialEq for CCProverAlignmentRoadmap {
    /// Two roadmaps are equal when they are for the same epoch and hold the same actions,
    /// in whatever order.
    fn eq(&self, other: &Self) -> (r: bool) {
        if self.epoch != other.epoch {
            return false;
        }
        let r = all_contained(&self.actions, &other.actions) && all_contained(
            &other.actions,
            &self.actions,
        );
        proof {
            if r {
                assert(self.actions@.to_set() =~= other.actions@.to_set());
            }
        }
        r
    }
}

impl vstd::std_specs::cmp::PartialEqSpecImpl for CCProverAlignmentRoadmap {
    open spec fn obeys_eq_spec() -> bool {
        true
    }

    open spec fn eq_spec(&self, other: &Self) -> bool {
        self.epoch == other.epoch && self.actions@.to_set() == other.actions@.to_set()
    }
}

impl Eq for CCProverAlignmentRoadmap {}

// ----------------------------------------------------------------------------------------------
// The model: what the prover's cores run, and what an action does to it.

/// Whether the new epoch differs from the one the prover is busy with.
pub open spec fn is_new_epoch_spec(new_epoch: EpochParameters, status: CCStatus) -> bool {
    match status {
        CCStatus::Running { epoch } => new_epoch != epoch,
        CCStatus::Idle => true,
    }
}

/// Whether a prover with `status` has to start a new job to prove `new_cu_id`.
pub open spec fn needs_new_job(status: CUStatus, new_cu_id: CUID, new_epoch: bool) -> bool {
    match status {
        CUStatus::Running { cu_id } => cu_id != new_cu_id || new_epoch,
        CUStatus::Idle => true,
    }
}

/// The provers that prove exactly `allocation`.
pub open spec fn aligned_state(allocation: Map<PhysicalCoreId, CUID>) -> Map<
    PhysicalCoreId,
    CUStatus,
> {
    Map::new(
        |c: PhysicalCoreId| allocation.contains_key(c),
        |c: PhysicalCoreId| CUStatus::Running { cu_id: allocation[c] },
    )
}

/// Applies one action to the provers, or `None` where the action does not fit them
/// (a prover created where one exists, or one removed or reused where none exists).
pub open spec fn apply_action(
    provers: Map<PhysicalCoreId, CUStatus>,
    action: CUProverAction,
) -> Option<Map<PhysicalCoreId, CUStatus>> {
    match action {
        CUProverAction::CreateCUProver(st) => {
            if provers.contains_key(st.new_core_id) {
                None
            } else {
                Some(provers.insert(st.new_core_id, CUStatus::Running { cu_id: st.new_cu_id }))
            }
        },
        CUProverAction::RemoveCUProver(st) => {
            if provers.contains_key(st.current_core_id) {
                Some(provers.remove(st.current_core_id))
            } else {
                None
            }
        },
        CUProverAction::NewCCJob(st) => {
            if provers.contains_key(st.current_core_id) {
                Some(provers.insert(st.current_core_id, CUStatus::Running { cu_id: st.new_cu_id }))
            } else {
                None
            }
        },
        CUProverAction::NewCCJobWithRepining(st) => {
            if provers.contains_key(st.current_core_id) && !provers.contains_key(st.new_core_id) {
                Some(
                    provers.remove(st.current_core_id).insert(
                        st.new_core_id,
                        CUStatus::Running { cu_id: st.new_cu_id },
                    ),
                )
            } else {
                None
            }
        },
    }
}

/// Applies the actions one after the other, in their order.
pub open spec fn apply_actions(
    provers: Map<PhysicalCoreId, CUStatus>,
    actions: Seq<CUProverAction>,
) -> Option<Map<PhysicalCoreId, CUStatus>>
    decreases actions.len(),
{
    if actions.len() == 0 {
        Some(provers)
    } else {
        match apply_actions(provers, actions.drop_last()) {
            Some(m) => apply_action(m, actions.last()),
            None => None,
        }
    }
}

/// Every action touches only the cores it has to: new jobs on cores that keep a prover but
/// have to change its job, creations on newly allocated cores, removals of provers whose core is
/// no longer allocated, and moves from the latter to the former.
pub open spec fn action_fits(
    action: CUProverAction,
    current: Map<PhysicalCoreId, CUStatus>,
    allocation: Map<PhysicalCoreId, CUID>,
    new_epoch: bool,
) -> bool {
    match action {
        CUProverAction::CreateCUProver(st) => {
            &&& allocation.contains_key(st.new_core_id)
            &&& !current.contains_key(st.new_core_id)
            &&& allocation[st.new_core_id] == st.new_cu_id
        },
        CUProverAction::RemoveCUProver(st) => {
            &&& current.contains_key(st.current_core_id)
            &&& !allocation.contains_key(st.current_core_id)
        },
        CUProverAction::NewCCJob(st) => {
            &&& current.contains_key(st.current_core_id)
            &&& allocation.contains_key(st.current_core_id)
            &&& allocation[st.current_core_id] == st.new_cu_id
            &&& needs_new_job(current[st.current_core_id], st.new_cu_id, new_epoch)
        },
        CUProverAction::NewCCJobWithRepining(st) => {
            &&& current.contains_key(st.current_core_id)
            &&& !allocation.contains_key(st.current_core_id)
            &&& allocation.contains_key(st.new_core_id)
            &&& !current.contains_key(st.new_core_id)
            &&& allocation[st.new_core_id] == st.new_cu_id
        },
    }
}

proof fn lemma_apply_push(
    provers: Map<PhysicalCoreId, CUStatus>,
    actions: Seq<CUProverAction>,
    action: CUProverAction,
)
    ensures
        apply_actions(provers, actions.push(action)) == (match apply_actions(provers, actions) {
            Some(m) => apply_action(m, action),
            None => None,
        }),
{
    assert(actions.push(action).drop_last() =~= actions);
}


/// Cores of allocations still waiting for a prover.
pub open spec fn pending_cores(pending: Seq<(PhysicalCoreId, CUID)>) -> Seq<PhysicalCoreId> {
    pending.map_values(|p: (PhysicalCoreId, CUID)| p.0)
}

/// After `actions`, the provers run every allocated compute unit except those in
/// `pending_alloc`, plus the provers of `pending_removal`, which still wait to be dropped.
spec fn on_track(
    current: Map<PhysicalCoreId, CUStatus>,
    allocation: Map<PhysicalCoreId, CUID>,
    actions: Seq<CUProverAction>,
    pending_alloc: Seq<(PhysicalCoreId, CUID)>,
    pending_removal: Seq<PhysicalCoreId>,
) -> bool {
    &&& pending_cores(pending_alloc).no_duplicates()
    &&& forall|j: int|
        0 <= j < pending_alloc.len() ==> {
            &&& allocation.contains_key(#[trigger] pending_alloc[j].0)
            &&& allocation[pending_alloc[j].0] == pending_alloc[j].1
            &&& !current.contains_key(pending_alloc[j].0)
        }
    &&& pending_removal.no_duplicates()
    &&& forall|j: int|
        0 <= j < pending_removal.len() ==> {
            &&& current.contains_key(#[trigger] pending_removal[j])
            &&& !allocation.contains_key(pending_removal[j])
        }
    &&& apply_actions(current, actions) is Some
    &&& forall|c: PhysicalCoreId|
        #[trigger] apply_actions(current, actions).unwrap().contains_key(c) <==> ((
        allocation.contains_key(c) && !pending_cores(pending_alloc).contains(c))
            || pending_removal.contains(c))
    &&& forall|c: PhysicalCoreId|
        allocation.contains_key(c) && !pending_cores(pending_alloc).contains(c)
            ==> #[trigger] apply_actions(current, actions).unwrap()[c] == (CUStatus::Running {
            cu_id: allocation[c],
        })
}

/// The core an action leaves in its final shape: the core of a new or a removed prover, the
/// core of a new job, the core a prover moves to.
pub open spec fn action_core(action: CUProverAction) -> PhysicalCoreId {
    match action {
        CUProverAction::CreateCUProver(st) => st.new_core_id,
        CUProverAction::RemoveCUProver(st) => st.current_core_id,
        CUProverAction::NewCCJob(st) => st.current_core_id,
        CUProverAction::NewCCJobWithRepining(st) => st.new_core_id,
    }
}

/// No two actions are about the same core.
pub open spec fn distinct_cores(actions: Seq<CUProverAction>) -> bool {
    forall|i: int, j: int|
        0 <= i < actions.len() && 0 <= j < actions.len() && i != j ==> action_core(
            #[trigger] actions[i],
        ) != action_core(#[trigger] actions[j])
}

/// Where an action stands in a roadmap: new jobs first, then moves, creations and removals.
pub open spec fn action_rank(action: CUProverAction) -> int {
    match action {
        CUProverAction::NewCCJob(_) => 0,
        CUProverAction::NewCCJobWithRepining(_) => 1,
        CUProverAction::CreateCUProver(_) => 2,
        CUProverAction::RemoveCUProver(_) => 3,
    }
}

/// The actions come in the order of their ranks.
pub open spec fn in_stage_order(actions: Seq<CUProverAction>) -> bool {
    forall|i: int, j: int|
        0 <= i < j < actions.len() ==> action_rank(#[trigger] actions[i]) <= action_rank(
            #[trigger] actions[j],
        )
}

/// No action ranks above `rank`.
spec fn ranks_at_most(actions: Seq<CUProverAction>, rank: int) -> bool {
    forall|i: int| 0 <= i < actions.len() ==> action_rank(#[trigger] actions[i]) <= rank
}

/// Appending an action that ranks at least as high as all others keeps the order.
proof fn lemma_push_in_order(actions: Seq<CUProverAction>, action: CUProverAction)
    requires
        in_stage_order(actions),
        ranks_at_most(actions, action_rank(action)),
    ensures
        in_stage_order(actions.push(action)),
        ranks_at_most(actions.push(action), action_rank(action)),
{
    let pushed = actions.push(action);
    assert forall|i: int, j: int| 0 <= i < j < pushed.len() implies action_rank(
        #[trigger] pushed[i],
    ) <= action_rank(#[trigger] pushed[j]) by {
        assert(pushed[i] == actions[i]);
        if j < actions.len() {
            assert(pushed[j] == actions[j]);
        }
    }
    assert forall|i: int| 0 <= i < pushed.len() implies action_rank(#[trigger] pushed[i])
        <= action_rank(action) by {
        if i < actions.len() {
            assert(pushed[i] == actions[i]);
        }
    }
}

/// The core of the prover an action works on: none for a creation, which starts a new prover.
pub open spec fn acted_core(action: CUProverAction) -> Option<PhysicalCoreId> {
    match action {
        CUProverAction::CreateCUProver(_) => None,
        CUProverAction::RemoveCUProver(st) => Some(st.current_core_id),
        CUProverAction::NewCCJob(st) => Some(st.current_core_id),
        CUProverAction::NewCCJobWithRepining(st) => Some(st.current_core_id),
    }
}

/// No two actions work on the prover of the same core.
pub open spec fn acted_distinct(actions: Seq<CUProverAction>) -> bool {
    forall|i: int, j: int|
        0 <= i < actions.len() && 0 <= j < actions.len() && i != j && acted_core(
            #[trigger] actions[i],
        ) is Some ==> acted_core(actions[i]) != acted_core(#[trigger] actions[j])
}

/// Every action that works on an existing prover finds one in `provers`, and no two of them
/// want the same one: the provers can be handed to the actions one by one.
pub open spec fn finds_provers<V>(provers: Map<PhysicalCoreId, V>, actions: Seq<CUProverAction>) -> bool {
    &&& forall|i: int|
        0 <= i < actions.len() ==> (acted_core(#[trigger] actions[i]) matches Some(c)
            ==> provers.contains_key(c))
    &&& acted_distinct(actions)
}

/// After the actions, no prover is left on a core whose prover was moved away or removed.
spec fn acted_gone(current: Map<PhysicalCoreId, CUStatus>, actions: Seq<CUProverAction>) -> bool {
    forall|i: int|
        0 <= i < actions.len() && (actions[i] is RemoveCUProver
            || actions[i] is NewCCJobWithRepining) ==> !apply_actions(
            current,
            actions,
        ).unwrap().contains_key(acted_core(#[trigger] actions[i])->0)
}

/// After the actions, the core of every action holds a prover, unless the action removed it.
spec fn cores_tracked(current: Map<PhysicalCoreId, CUStatus>, actions: Seq<CUProverAction>) -> bool {
    forall|i: int|
        0 <= i < actions.len() ==> (apply_actions(current, actions).unwrap().contains_key(
            action_core(#[trigger] actions[i]),
        ) <==> !(actions[i] is RemoveCUProver))
}

/// Every action fits the current provers and the new allocation.
spec fn all_fit(
    actions: Seq<CUProverAction>,
    current: Map<PhysicalCoreId, CUStatus>,
    allocation: Map<PhysicalCoreId, CUID>,
    new_epoch: bool,
) -> bool {
    forall|i: int|
        0 <= i < actions.len() ==> action_fits(#[trigger] actions[i], current, allocation, new_epoch)
}

/// Whether some action creates a prover.
pub open spec fn creates_some(actions: Seq<CUProverAction>) -> bool {
    exists|i: int| 0 <= i < actions.len() && #[trigger] actions[i] is CreateCUProver
}

/// Whether some action removes a prover.
pub open spec fn removes_some(actions: Seq<CUProverAction>) -> bool {
    exists|i: int| 0 <= i < actions.len() && #[trigger] actions[i] is RemoveCUProver
}

struct RoadmapBuilderState {
    is_new_epoch: bool,
    epoch: EpochParameters,
    unprepared_allocation_actions: Vec<(PhysicalCoreId, CUID)>,
    unprepared_removal_actions: Vec<PhysicalCoreId>,
    pre_actions: Vec<CUProverPreAction>,
    actions: Vec<CUProverAction>,
}

impl RoadmapBuilderState {
    /// Starts a roadmap towards `new_epoch`, asking for a proof cleanup if the epoch changes.
    fn from(new_epoch: EpochParameters, current_status: CCStatus) -> (st: Self)
        ensures
            st.is_new_epoch == is_new_epoch_spec(new_epoch, current_status),
            st.epoch == new_epoch,
            st.unprepared_allocation_actions@.len() == 0,
            st.unprepared_removal_actions@.len() == 0,
            st.actions@.len() == 0,
            st.pre_actions@ == (if st.is_new_epoch {
                seq![CUProverPreAction::CleanupProofCache]
            } else {
                Seq::<CUProverPreAction>::empty()
            }),
    {
        let is_new_epoch = match current_status {
            CCStatus::Running { epoch } => new_epoch != epoch,
            CCStatus::Idle => true,
        };
        let state = RoadmapBuilderState {
            is_new_epoch,
            epoch: new_epoch,
            unprepared_allocation_actions: Vec::new(),
            unprepared_removal_actions: Vec::new(),
            pre_actions: Vec::new(),
            actions: Vec::new(),
        };
        Self::clean_proofs_if_new_epoch(state)
    }

    fn clean_proofs_if_new_epoch(state: Self) -> (r: Self)
        ensures
            r.is_new_epoch == state.is_new_epoch,
            r.epoch == state.epoch,
            r.unprepared_allocation_actions@ == state.unprepared_allocation_actions@,
            r.unprepared_removal_actions@ == state.unprepared_removal_actions@,
            r.actions@ == state.actions@,
            r.pre_actions@ == (if state.is_new_epoch {
                state.pre_actions@.push(CUProverPreAction::CleanupProofCache)
            } else {
                state.pre_actions@
            }),
    {
        let mut state = state;
        if state.is_new_epoch {
            state.pre_actions.push(CUProverPreAction::cleanup_proof_cache());
        }
        state
    }
}


/// First stage: for every allocated core, either remember that it needs a new prover or, when
/// a prover already runs there, ask for a new job if its compute unit or the epoch changes.
/// Returns the cores whose prover stays.
fn collect_allocation_and_new_job_actions(
    st: &mut RoadmapBuilderState,
    new_allocation: &CUAllocation,
    current_allocation: &HashMap<PhysicalCoreId, CUStatus>,
) -> (remaining: HashSet<PhysicalCoreId>)
    requires
        old(st).unprepared_allocation_actions@.len() == 0,
        old(st).actions@.len() == 0,
    ensures
        final(st).is_new_epoch == old(st).is_new_epoch,
        final(st).epoch == old(st).epoch,
        final(st).pre_actions@ == old(st).pre_actions@,
        final(st).unprepared_removal_actions@ == old(st).unprepared_removal_actions@,
        forall|c: PhysicalCoreId|
            #[trigger] remaining@.contains(c) <==> (new_allocation@.contains_key(c)
                && current_allocation@.contains_key(c)),
        pending_cores(final(st).unprepared_allocation_actions@).no_duplicates(),
        forall|j: int|
            0 <= j < final(st).unprepared_allocation_actions@.len() ==> {
                let p = #[trigger] final(st).unprepared_allocation_actions@[j];
                &&& new_allocation@.contains_key(p.0)
                &&& new_allocation@[p.0] == p.1
                &&& !current_allocation@.contains_key(p.0)
            },
        forall|c: PhysicalCoreId|
            new_allocation@.contains_key(c) && !current_allocation@.contains_key(c)
                ==> #[trigger] pending_cores(final(st).unprepared_allocation_actions@).contains(c),
        forall|i: int|
            0 <= i < final(st).actions@.len() ==> {
                &&& action_fits(
                    #[trigger] final(st).actions@[i],
                    current_allocation@,
                    new_allocation@,
                    final(st).is_new_epoch,
                )
                &&& final(st).actions@[i] is NewCCJob
            },
        forall|c: PhysicalCoreId|
            new_allocation@.contains_key(c) && current_allocation@.contains_key(c) && needs_new_job(
                current_allocation@[c],
                new_allocation@[c],
                final(st).is_new_epoch,
            ) ==> #[trigger] final(st).actions@.contains(
                CUProverAction::NewCCJob(
                    NewCCJobState { current_core_id: c, new_cu_id: new_allocation@[c] },
                ),
            ),
        apply_actions(current_allocation@, final(st).actions@) is Some,
        forall|c: PhysicalCoreId|
            #[trigger] apply_actions(current_allocation@, final(st).actions@).unwrap().contains_key(
                c,
            ) <==> current_allocation@.contains_key(c),
        distinct_cores(final(st).actions@),
        forall|c: PhysicalCoreId|
            current_allocation@.contains_key(c) ==> #[trigger] apply_actions(
                current_allocation@,
                final(st).actions@,
            ).unwrap()[c] == (if new_allocation@.contains_key(c) {
                CUStatus::Running { cu_id: new_allocation@[c] }
            } else {
                current_allocation@[c]
            }),
{
    let ghost a = new_allocation@;
    let ghost s = current_allocation@;
    let ghost new_epoch = st.is_new_epoch;
    let mut remaining_cu_provides: HashSet<PhysicalCoreId> = HashSet::new();
    let ghost sq = spec_hash_map_iter(new_allocation).remaining();
    let ghost mut done: Set<PhysicalCoreId> = Set::empty();
    let ghost mut n: int = 0;
    proof {
        assert(apply_actions(s, st.actions@) == Some(s));
    }
    for (new_core_id, new_cu_id) in it: new_allocation.iter()
        invariant
            it.seq() == sq,
            sq == spec_hash_map_iter(new_allocation).remaining(),
            sq.no_duplicates(),
            n == it.index(),
            a == new_allocation@,
            s == current_allocation@,
            new_epoch == st.is_new_epoch,
            st.is_new_epoch == old(st).is_new_epoch,
            st.epoch == old(st).epoch,
            st.pre_actions@ == old(st).pre_actions@,
            st.unprepared_removal_actions@ == old(st).unprepared_removal_actions@,
            forall|j: int| 0 <= j < n ==> #[trigger] done.contains(*sq[j].0),
            forall|c: PhysicalCoreId|
                #[trigger] done.contains(c) ==> exists|j: int| 0 <= j < n && *sq[j].0 == c,
            forall|c: PhysicalCoreId| #[trigger] done.contains(c) ==> a.contains_key(c),
            forall|c: PhysicalCoreId|
                #[trigger] remaining_cu_provides@.contains(c) <==> (done.contains(c)
                    && s.contains_key(c)),
            pending_cores(st.unprepared_allocation_actions@).no_duplicates(),
            forall|j: int|
                0 <= j < st.unprepared_allocation_actions@.len() ==> {
                    let p = #[trigger] st.unprepared_allocation_actions@[j];
                    &&& done.contains(p.0)
                    &&& a.contains_key(p.0)
                    &&& a[p.0] == p.1
                    &&& !s.contains_key(p.0)
                },
            forall|c: PhysicalCoreId|
                done.contains(c) && !s.contains_key(c)
                    ==> #[trigger] pending_cores(st.unprepared_allocation_actions@).contains(c),
            forall|i: int|
                0 <= i < st.actions@.len() ==> {
                    &&& action_fits(#[trigger] st.actions@[i], s, a, new_epoch)
                    &&& st.actions@[i] is NewCCJob
                },
            forall|c: PhysicalCoreId|
                done.contains(c) && s.contains_key(c) && needs_new_job(s[c], a[c], new_epoch)
                    ==> #[trigger] st.actions@.contains(
                    CUProverAction::NewCCJob(NewCCJobState { current_core_id: c, new_cu_id: a[c] }),
                ),
            apply_actions(s, st.actions@) is Some,
            forall|c: PhysicalCoreId|
                #[trigger] apply_actions(s, st.actions@).unwrap().contains_key(c)
                    <==> s.contains_key(c),
            distinct_cores(st.actions@),
            forall|i: int|
                0 <= i < st.actions@.len() ==> done.contains(action_core(#[trigger] st.actions@[i])),
            forall|c: PhysicalCoreId|
                s.contains_key(c) ==> #[trigger] apply_actions(s, st.actions@).unwrap()[c] == (if done.contains(c)
                    && needs_new_job(s[c], a[c], new_epoch) {
                    CUStatus::Running { cu_id: a[c] }
                } else {
                    s[c]
                }),
    {
        let new_core_id: PhysicalCoreId = *new_core_id;
        let new_cu_id: CUID = *new_cu_id;
        proof {
            assert(a.contains_key(new_core_id) && a[new_core_id] == new_cu_id);
            assert(!done.contains(new_core_id)) by {
                if done.contains(new_core_id) {
                    let j = choose|j: int| 0 <= j < n && *sq[j].0 == new_core_id;
                    assert(a.contains_key(*sq[j].0) && a[*sq[j].0] == *sq[j].1);
                    assert(sq[j] == sq[n]);
                }
            }
        }
        let ghost old_actions = st.actions@;
        let ghost old_pending = st.unprepared_allocation_actions@;
        let ghost old_done = done;
        match current_allocation.get(&new_core_id) {
            Some(status) => {
                remaining_cu_provides.insert(new_core_id);
                if should_update_job(&new_cu_id, status, st.is_new_epoch) {
                    let action = CUProverAction::new_cc_job(new_core_id, new_cu_id);
                    st.actions.push(action);
                    proof {
                        lemma_apply_push(s, old_actions, action);
                        assert(st.actions@[old_actions.len() as int] == action);
                    }
                }
            },
            None => {
                st.unprepared_allocation_actions.push((new_core_id, new_cu_id));
                proof {
                    assert(pending_cores(st.unprepared_allocation_actions@) =~= pending_cores(
                        old_pending,
                    ).push(new_core_id));
                }
            },
        }
        proof {
            assert forall|c: PhysicalCoreId|
                (old_done.contains(c) || c == new_core_id) && !s.contains_key(c)
                    implies #[trigger] pending_cores(st.unprepared_allocation_actions@).contains(c) by {
                if c == new_core_id {
                    let k = st.unprepared_allocation_actions@.len() - 1;
                    assert(pending_cores(st.unprepared_allocation_actions@)[k] == c);
                } else {
                    assert(pending_cores(old_pending).contains(c));
                    let k = choose|k: int|
                        0 <= k < pending_cores(old_pending).len() && pending_cores(old_pending)[k]
                            == c;
                    assert(pending_cores(st.unprepared_allocation_actions@)[k] == c);
                }
            }
            done = done.insert(new_core_id);
            n = n + 1;
            assert forall|i: int| 0 <= i < st.actions@.len() implies done.contains(
                action_core(#[trigger] st.actions@[i]),
            ) by {
                if i < old_actions.len() {
                    assert(st.actions@[i] == old_actions[i]);
                }
            }
            assert forall|i: int, j: int|
                0 <= i < st.actions@.len() && 0 <= j < st.actions@.len() && i != j implies action_core(
                #[trigger] st.actions@[i],
            ) != action_core(#[trigger] st.actions@[j]) by {
                if i < old_actions.len() {
                    assert(st.actions@[i] == old_actions[i]);
                    assert(old_done.contains(action_core(old_actions[i])));
                }
                if j < old_actions.len() {
                    assert(st.actions@[j] == old_actions[j]);
                    assert(old_done.contains(action_core(old_actions[j])));
                }
            }
            assert forall|c: PhysicalCoreId| #[trigger] done.contains(c) implies exists|j: int|
                0 <= j < n && *sq[j].0 == c by {
                if c == new_core_id {
                    assert(*sq[n - 1].0 == c);
                } else {
                    assert(old(st).is_new_epoch == new_epoch);
                }
            }
            assert forall|c: PhysicalCoreId|
                done.contains(c) && s.contains_key(c) && needs_new_job(
                    s[c],
                    a[c],
                    new_epoch,
                ) implies #[trigger] st.actions@.contains(
                CUProverAction::NewCCJob(NewCCJobState { current_core_id: c, new_cu_id: a[c] }),
            ) by {
                if c == new_core_id {
                    assert(st.actions@[st.actions@.len() - 1] == CUProverAction::NewCCJob(
                        NewCCJobState { current_core_id: c, new_cu_id: a[c] },
                    ));
                } else {
                    let x = CUProverAction::NewCCJob(
                        NewCCJobState { current_core_id: c, new_cu_id: a[c] },
                    );
                    assert(old_actions.contains(x));
                    let k = choose|k: int| 0 <= k < old_actions.len() && old_actions[k] == x;
                    assert(st.actions@[k] == x);
                }
            }
        }
    }
    proof {
        assert forall|c: PhysicalCoreId| a.contains_key(c) implies #[trigger] done.contains(c) by {
            assert(sq.contains((&c, &a[c])));
            let j = choose|j: int| 0 <= j < sq.len() && sq[j] == (&c, &a[c]);
            assert(done.contains(*sq[j].0));
        }
    }
    remaining_cu_provides
}


/// Whether a prover with `status` has to start a new job to prove `new_cu_id`: when it is idle,
/// runs another compute unit, or the epoch changes.
fn should_update_job(new_cu_id: &CUID, status: &CUStatus, is_new_epoch: bool) -> (r: bool)
    ensures
        r == needs_new_job(*status, *new_cu_id, is_new_epoch),
{
    match status {
        CUStatus::Running { cu_id } => *new_cu_id != *cu_id || is_new_epoch,
        CUStatus::Idle => true,
    }
}

/// Second stage: every current prover whose core stays out of `remaining` has to go.
fn collect_removal_actions(
    st: &mut RoadmapBuilderState,
    current_allocation: &HashMap<PhysicalCoreId, CUStatus>,
    remaining: &HashSet<PhysicalCoreId>,
)
    requires
        old(st).unprepared_removal_actions@.len() == 0,
    ensures
        final(st).is_new_epoch == old(st).is_new_epoch,
        final(st).epoch == old(st).epoch,
        final(st).pre_actions@ == old(st).pre_actions@,
        final(st).actions@ == old(st).actions@,
        final(st).unprepared_allocation_actions@ == old(st).unprepared_allocation_actions@,
        final(st).unprepared_removal_actions@.no_duplicates(),
        forall|c: PhysicalCoreId|
            #[trigger] final(st).unprepared_removal_actions@.contains(c) <==> (
            current_allocation@.contains_key(c) && !remaining@.contains(c)),
{
    let ghost sq = spec_keys_iter(current_allocation).remaining();
    let ghost mut n: int = 0;
    proof {
        assert(sq.unref().to_set() == current_allocation@.dom());
    }
    for current_core_id in it: current_allocation.keys()
        invariant
            it.seq() == sq,
            sq == spec_keys_iter(current_allocation).remaining(),
            sq.no_duplicates(),
            sq.unref().to_set() == current_allocation@.dom(),
            n == it.index(),
            st.is_new_epoch == old(st).is_new_epoch,
            st.epoch == old(st).epoch,
            st.pre_actions@ == old(st).pre_actions@,
            st.actions@ == old(st).actions@,
            st.unprepared_allocation_actions@ == old(st).unprepared_allocation_actions@,
            st.unprepared_removal_actions@.no_duplicates(),
            forall|j: int|
                0 <= j < st.unprepared_removal_actions@.len() ==> {
                    let c = #[trigger] st.unprepared_removal_actions@[j];
                    &&& current_allocation@.contains_key(c)
                    &&& !remaining@.contains(c)
                    &&& exists|k: int| 0 <= k < n && *sq[k] == c
                },
            forall|k: int|
                0 <= k < n && !remaining@.contains(*sq[k])
                    ==> st.unprepared_removal_actions@.contains(#[trigger] *sq[k]),
    {
        let c: PhysicalCoreId = *current_core_id;
        proof {
            assert(sq.unref()[n] == c);
            assert(sq.unref().to_set().contains(c));
        }
        let ghost old_removal = st.unprepared_removal_actions@;
        if !remaining.contains(&c) {
            proof {
                assert(!old_removal.contains(c)) by {
                    if old_removal.contains(c) {
                        let j = choose|j: int| 0 <= j < old_removal.len() && old_removal[j] == c;
                        let k = choose|k: int| 0 <= k < n && *sq[k] == old_removal[j];
                        assert(sq[k] == sq[n]);
                    }
                }
            }
            st.unprepared_removal_actions.push(c);
            proof {
                assert forall|j: int|
                    0 <= j < st.unprepared_removal_actions@.len() implies {
                    let d = #[trigger] st.unprepared_removal_actions@[j];
                    &&& current_allocation@.contains_key(d)
                    &&& !remaining@.contains(d)
                    &&& exists|k: int| 0 <= k < n + 1 && *sq[k] == d
                } by {
                    if j == old_removal.len() {
                        assert(*sq[n] == c);
                    } else {
                        assert(old_removal[j] == st.unprepared_removal_actions@[j]);
                    }
                }
                assert forall|k: int|
                    0 <= k < n + 1 && !remaining@.contains(*sq[k])
                        implies st.unprepared_removal_actions@.contains(#[trigger] *sq[k]) by {
                    if k == n {
                        assert(st.unprepared_removal_actions@[old_removal.len() as int] == c);
                    } else {
                        let j = choose|j: int|
                            0 <= j < old_removal.len() && old_removal[j] == *sq[k];
                        assert(st.unprepared_removal_actions@[j] == *sq[k]);
                    }
                }
            }
        }
        proof {
            n = n + 1;
        }
    }
    proof {
        assert forall|c: PhysicalCoreId|
            current_allocation@.contains_key(c) && !remaining@.contains(
                c,
            ) implies #[trigger] st.unprepared_removal_actions@.contains(c) by {
            assert(sq.unref().to_set().contains(c));
            let k = choose|k: int| 0 <= k < sq.unref().len() && sq.unref()[k] == c;
            assert(*sq[k] == c);
        }
    }
}


/// The first actions are still there, in their places.
pub open spec fn keeps_prefix(before: Seq<CUProverAction>, after: Seq<CUProverAction>) -> bool {
    before.len() <= after.len() && forall|i: int| 0 <= i < before.len() ==> after[i] == before[i]
}

proof fn lemma_drop_last_contains<T>(s: Seq<T>, x: T)
    requires
        s.len() > 0,
        s.no_duplicates(),
    ensures
        s.drop_last().no_duplicates(),
        s.drop_last().contains(x) <==> (s.contains(x) && x != s.last()),
{
    if s.drop_last().contains(x) {
        let j = choose|j: int| 0 <= j < s.drop_last().len() && s.drop_last()[j] == x;
        assert(s[j] == x);
    }
    if s.contains(x) && x != s.last() {
        let j = choose|j: int| 0 <= j < s.len() && s[j] == x;
        assert(s.drop_last()[j] == x);
    }
}

/// Third stage: pair cores that lose their prover with cores that need one, and move the
/// prover instead of removing one and creating another.
fn substitute_removal_and_allocation_actions(
    st: &mut RoadmapBuilderState,
    Ghost(current): Ghost<Map<PhysicalCoreId, CUStatus>>,
    Ghost(allocation): Ghost<Map<PhysicalCoreId, CUID>>,
)
    requires
        on_track(
            current,
            allocation,
            old(st).actions@,
            old(st).unprepared_allocation_actions@,
            old(st).unprepared_removal_actions@,
        ),
        all_fit(old(st).actions@, current, allocation, old(st).is_new_epoch),
        !creates_some(old(st).actions@),
        !removes_some(old(st).actions@),
        distinct_cores(old(st).actions@),
        cores_tracked(current, old(st).actions@),
        acted_distinct(old(st).actions@),
        acted_gone(current, old(st).actions@),
        in_stage_order(old(st).actions@),
        ranks_at_most(old(st).actions@, 1),
    ensures
        final(st).is_new_epoch == old(st).is_new_epoch,
        final(st).epoch == old(st).epoch,
        final(st).pre_actions@ == old(st).pre_actions@,
        on_track(
            current,
            allocation,
            final(st).actions@,
            final(st).unprepared_allocation_actions@,
            final(st).unprepared_removal_actions@,
        ),
        in_stage_order(final(st).actions@),
        ranks_at_most(final(st).actions@, 1),
        all_fit(final(st).actions@, current, allocation, final(st).is_new_epoch),
        !creates_some(final(st).actions@),
        !removes_some(final(st).actions@),
        keeps_prefix(old(st).actions@, final(st).actions@),
        final(st).unprepared_allocation_actions@.len() == 0
            || final(st).unprepared_removal_actions@.len() == 0,
        distinct_cores(final(st).actions@),
        cores_tracked(current, final(st).actions@),
        acted_distinct(final(st).actions@),
        acted_gone(current, final(st).actions@),
{
    let substitute_actions_count: usize = if st.unprepared_allocation_actions.len()
        < st.unprepared_removal_actions.len() {
        st.unprepared_allocation_actions.len()
    } else {
        st.unprepared_removal_actions.len()
    };
    let ghost start_alloc_len = st.unprepared_allocation_actions@.len();
    let ghost start_removal_len = st.unprepared_removal_actions@.len();
    let mut i: usize = 0;
    while i < substitute_actions_count
        invariant
            0 <= i <= substitute_actions_count,
            substitute_actions_count == start_alloc_len || substitute_actions_count
                == start_removal_len,
            substitute_actions_count <= start_alloc_len,
            substitute_actions_count <= start_removal_len,
            st.unprepared_allocation_actions@.len() == start_alloc_len - i,
            st.unprepared_removal_actions@.len() == start_removal_len - i,
            st.is_new_epoch == old(st).is_new_epoch,
            st.epoch == old(st).epoch,
            st.pre_actions@ == old(st).pre_actions@,
            on_track(
                current,
                allocation,
                st.actions@,
                st.unprepared_allocation_actions@,
                st.unprepared_removal_actions@,
            ),
            all_fit(st.actions@, current, allocation, st.is_new_epoch),
            !creates_some(st.actions@),
            !removes_some(st.actions@),
            keeps_prefix(old(st).actions@, st.actions@),
            distinct_cores(st.actions@),
            cores_tracked(current, st.actions@),
            acted_distinct(st.actions@),
            acted_gone(current, st.actions@),
            in_stage_order(st.actions@),
            ranks_at_most(st.actions@, 1),
        decreases substitute_actions_count - i,
    {
        let ghost u = st.unprepared_allocation_actions@;
        let ghost rm = st.unprepared_removal_actions@;
        let ghost acts = st.actions@;
        let alloc_len = st.unprepared_allocation_actions.len();
        let (new_core_id, new_cu_id) = st.unprepared_allocation_actions.remove(alloc_len - 1);
        let removal_len = st.unprepared_removal_actions.len();
        let current_core_id = st.unprepared_removal_actions.remove(removal_len - 1);
        let action = CUProverAction::new_cc_job_repin(current_core_id, new_core_id, new_cu_id);
        st.actions.push(action);
        proof {
            lemma_push_in_order(acts, action);
            assert(st.unprepared_allocation_actions@ =~= u.drop_last());
            assert(st.unprepared_removal_actions@ =~= rm.drop_last());
            assert(pending_cores(u.drop_last()) =~= pending_cores(u).drop_last());
            assert(pending_cores(u).last() == new_core_id);
            assert(rm.last() == current_core_id);
            lemma_apply_push(current, acts, action);
            let m = apply_actions(current, acts).unwrap();
            assert(pending_cores(u).contains(new_core_id));
            assert(rm.contains(current_core_id));
            assert(allocation.contains_key(u[u.len() - 1].0));
            assert(!rm.contains(new_core_id)) by {
                if rm.contains(new_core_id) {
                    let j = choose|j: int| 0 <= j < rm.len() && rm[j] == new_core_id;
                    assert(!allocation.contains_key(rm[j]));
                }
            }
            assert(m.contains_key(current_core_id));
            assert(!m.contains_key(new_core_id));
            let m2 = apply_actions(current, st.actions@).unwrap();
            assert(m2 == m.remove(current_core_id).insert(
                new_core_id,
                CUStatus::Running { cu_id: new_cu_id },
            ));
            assert forall|c: PhysicalCoreId|
                #[trigger] apply_actions(current, st.actions@).unwrap().contains_key(c) <==> ((
                allocation.contains_key(c) && !pending_cores(
                    st.unprepared_allocation_actions@,
                ).contains(c)) || st.unprepared_removal_actions@.contains(c)) by {
                lemma_drop_last_contains(pending_cores(u), c);
                lemma_drop_last_contains(rm, c);
            }
            assert forall|c: PhysicalCoreId|
                allocation.contains_key(c) && !pending_cores(
                    st.unprepared_allocation_actions@,
                ).contains(c) implies #[trigger] apply_actions(
                current,
                st.actions@,
            ).unwrap()[c] == (CUStatus::Running { cu_id: allocation[c] }) by {
                lemma_drop_last_contains(pending_cores(u), c);
                lemma_drop_last_contains(rm, c);
            }
            lemma_drop_last_contains(pending_cores(u), new_core_id);
            lemma_drop_last_contains(rm, current_core_id);
            assert(action_fits(action, current, allocation, st.is_new_epoch));
            assert forall|k: int| 0 <= k < st.actions@.len() implies action_fits(
                #[trigger] st.actions@[k],
                current,
                allocation,
                st.is_new_epoch,
            ) by {
                if k < acts.len() {
                    assert(st.actions@[k] == acts[k]);
                }
            }
            assert(!creates_some(st.actions@)) by {
                if creates_some(st.actions@) {
                    let k = choose|k: int|
                        0 <= k < st.actions@.len() && st.actions@[k] is CreateCUProver;
                    assert(st.actions@[k] == acts[k]);
                }
            }
            assert(!removes_some(st.actions@)) by {
                if removes_some(st.actions@) {
                    let k = choose|k: int|
                        0 <= k < st.actions@.len() && st.actions@[k] is RemoveCUProver;
                    assert(st.actions@[k] == acts[k]);
                }
            }
            assert forall|k: int| 0 <= k < acts.len() implies {
                &&& m.contains_key(action_core(#[trigger] acts[k]))
                &&& allocation.contains_key(action_core(acts[k]))
                &&& !(acts[k] is RemoveCUProver)
            } by {
                assert(action_fits(acts[k], current, allocation, st.is_new_epoch));
                if acts[k] is RemoveCUProver {
                    assert(removes_some(acts));
                }
            }
            assert(!allocation.contains_key(current_core_id));
            assert forall|k: int| 0 <= k < st.actions@.len() implies (m2.contains_key(
                action_core(#[trigger] st.actions@[k]),
            ) <==> !(st.actions@[k] is RemoveCUProver)) by {
                if k < acts.len() {
                    assert(st.actions@[k] == acts[k]);
                }
            }
            assert forall|k: int, l: int|
                0 <= k < st.actions@.len() && 0 <= l < st.actions@.len() && k != l implies action_core(
                #[trigger] st.actions@[k],
            ) != action_core(#[trigger] st.actions@[l]) by {
                if k < acts.len() {
                    assert(st.actions@[k] == acts[k]);
                }
                if l < acts.len() {
                    assert(st.actions@[l] == acts[l]);
                }
            }
            assert forall|k: int| 0 <= k < acts.len() && (acts[k] is RemoveCUProver
                || acts[k] is NewCCJobWithRepining) implies !m.contains_key(
                acted_core(#[trigger] acts[k])->0,
            ) && !allocation.contains_key(acted_core(acts[k])->0) by {
                assert(action_fits(acts[k], current, allocation, st.is_new_epoch));
            }
            assert forall|k: int| 0 <= k < acts.len() && acts[k] is NewCCJob implies allocation.contains_key(
                acted_core(#[trigger] acts[k])->0,
            ) by {
                assert(action_fits(acts[k], current, allocation, st.is_new_epoch));
            }
            assert forall|k: int|
                0 <= k < st.actions@.len() && (st.actions@[k] is RemoveCUProver
                    || st.actions@[k] is NewCCJobWithRepining) implies !m2.contains_key(
                acted_core(#[trigger] st.actions@[k])->0,
            ) by {
                if k < acts.len() {
                    assert(st.actions@[k] == acts[k]);
                }
            }
            assert forall|k: int, l: int|
                0 <= k < st.actions@.len() && 0 <= l < st.actions@.len() && k != l && acted_core(
                    #[trigger] st.actions@[k],
                ) is Some implies acted_core(st.actions@[k]) != acted_core(
                #[trigger] st.actions@[l],
            ) by {
                if k < acts.len() {
                    assert(st.actions@[k] == acts[k]);
                }
                if l < acts.len() {
                    assert(st.actions@[l] == acts[l]);
                }
            }
        }
        i = i + 1;
    }
}


proof fn lemma_skip_contains<T>(s: Seq<T>, i: int, x: T)
    requires
        0 <= i < s.len(),
        s.no_duplicates(),
    ensures
        s.skip(i).no_duplicates(),
        s.skip(i + 1).no_duplicates(),
        s.skip(i).contains(x) <==> (x == s[i] || s.skip(i + 1).contains(x)),
        !s.skip(i + 1).contains(s[i]),
{
    let w = s.skip(i);
    if w.contains(x) {
        let j = choose|j: int| 0 <= j < w.len() && w[j] == x;
        if j > 0 {
            assert(s.skip(i + 1)[j - 1] == x);
        }
    }
    let t = s.skip(i + 1);
    if t.contains(x) {
        let j = choose|j: int| 0 <= j < t.len() && t[j] == x;
        assert(s.skip(i)[j + 1] == x);
    }
    if x == s[i] {
        assert(s.skip(i)[0] == x);
    }
    if t.contains(s[i]) {
        let j = choose|j: int| 0 <= j < t.len() && t[j] == s[i];
        assert(s[i + 1 + j] == s[i]);
    }
}

/// Fourth stage: create a prover on every core that still needs one.
fn prepare_allocation_actions(
    st: &mut RoadmapBuilderState,
    Ghost(current): Ghost<Map<PhysicalCoreId, CUStatus>>,
    Ghost(allocation): Ghost<Map<PhysicalCoreId, CUID>>,
)
    requires
        on_track(
            current,
            allocation,
            old(st).actions@,
            old(st).unprepared_allocation_actions@,
            old(st).unprepared_removal_actions@,
        ),
        all_fit(old(st).actions@, current, allocation, old(st).is_new_epoch),
        !removes_some(old(st).actions@),
        distinct_cores(old(st).actions@),
        cores_tracked(current, old(st).actions@),
        acted_distinct(old(st).actions@),
        acted_gone(current, old(st).actions@),
        in_stage_order(old(st).actions@),
        ranks_at_most(old(st).actions@, 2),
    ensures
        final(st).is_new_epoch == old(st).is_new_epoch,
        final(st).epoch == old(st).epoch,
        final(st).pre_actions@ == old(st).pre_actions@,
        final(st).unprepared_allocation_actions@ == old(st).unprepared_allocation_actions@,
        final(st).unprepared_removal_actions@ == old(st).unprepared_removal_actions@,
        on_track(
            current,
            allocation,
            final(st).actions@,
            Seq::<(PhysicalCoreId, CUID)>::empty(),
            final(st).unprepared_removal_actions@,
        ),
        in_stage_order(final(st).actions@),
        ranks_at_most(final(st).actions@, 2),
        all_fit(final(st).actions@, current, allocation, final(st).is_new_epoch),
        !removes_some(final(st).actions@),
        keeps_prefix(old(st).actions@, final(st).actions@),
        old(st).unprepared_allocation_actions@.len() == 0 ==> final(st).actions@ == old(
            st,
        ).actions@,
        distinct_cores(final(st).actions@),
        cores_tracked(current, final(st).actions@),
        acted_distinct(final(st).actions@),
        acted_gone(current, final(st).actions@),
{
    let ghost u = st.unprepared_allocation_actions@;
    let ghost rm = st.unprepared_removal_actions@;
    proof {
        assert(u.skip(0) =~= u);
    }
    let mut i: usize = 0;
    while i < st.unprepared_allocation_actions.len()
        invariant
            0 <= i <= u.len(),
            st.unprepared_allocation_actions@ == u,
            st.unprepared_removal_actions@ == rm,
            st.is_new_epoch == old(st).is_new_epoch,
            st.epoch == old(st).epoch,
            st.pre_actions@ == old(st).pre_actions@,
            u == old(st).unprepared_allocation_actions@,
            rm == old(st).unprepared_removal_actions@,
            on_track(current, allocation, st.actions@, u.skip(i as int), rm),
            pending_cores(u).no_duplicates(),
            all_fit(st.actions@, current, allocation, st.is_new_epoch),
            !removes_some(st.actions@),
            keeps_prefix(old(st).actions@, st.actions@),
            i == 0 ==> st.actions@ == old(st).actions@,
            distinct_cores(st.actions@),
            cores_tracked(current, st.actions@),
            acted_distinct(st.actions@),
            acted_gone(current, st.actions@),
            in_stage_order(st.actions@),
            ranks_at_most(st.actions@, 2),
        decreases u.len() - i,
    {
        let (core_id, cu_id) = st.unprepared_allocation_actions[i];
        let action = CUProverAction::create_cu_prover(core_id, cu_id);
        let ghost acts = st.actions@;
        st.actions.push(action);
        proof {
            lemma_push_in_order(acts, action);
            let pc = pending_cores(u);
            assert(pending_cores(u.skip(i as int)) =~= pc.skip(i as int));
            assert(pending_cores(u.skip(i + 1)) =~= pc.skip(i + 1));
            assert(pc[i as int] == core_id);
            lemma_skip_contains(pc, i as int, core_id);
            lemma_apply_push(current, acts, action);
            assert(u.skip(i as int)[0] == u[i as int]);
            assert(allocation.contains_key(core_id) && allocation[core_id] == cu_id
                && !current.contains_key(core_id));
            assert(!rm.contains(core_id)) by {
                if rm.contains(core_id) {
                    let j = choose|j: int| 0 <= j < rm.len() && rm[j] == core_id;
                    assert(!allocation.contains_key(rm[j]));
                }
            }
            assert forall|c: PhysicalCoreId|
                #[trigger] apply_actions(current, st.actions@).unwrap().contains_key(c) <==> ((
                allocation.contains_key(c) && !pending_cores(u.skip(i + 1)).contains(c))
                    || rm.contains(c)) by {
                lemma_skip_contains(pc, i as int, c);
            }
            assert forall|c: PhysicalCoreId|
                allocation.contains_key(c) && !pending_cores(u.skip(i + 1)).contains(
                    c,
                ) implies #[trigger] apply_actions(current, st.actions@).unwrap()[c] == (
            CUStatus::Running { cu_id: allocation[c] }) by {
                lemma_skip_contains(pc, i as int, c);
            }
            assert forall|j: int| 0 <= j < u.skip(i + 1).len() implies {
                &&& allocation.contains_key(#[trigger] u.skip(i + 1)[j].0)
                &&& allocation[u.skip(i + 1)[j].0] == u.skip(i + 1)[j].1
                &&& !current.contains_key(u.skip(i + 1)[j].0)
            } by {
                assert(u.skip(i + 1)[j] == u.skip(i as int)[j + 1]);
            }
            assert forall|k: int| 0 <= k < st.actions@.len() implies action_fits(
                #[trigger] st.actions@[k],
                current,
                allocation,
                st.is_new_epoch,
            ) by {
                if k < acts.len() {
                    assert(st.actions@[k] == acts[k]);
                }
            }
            assert(!removes_some(st.actions@)) by {
                if removes_some(st.actions@) {
                    let k = choose|k: int|
                        0 <= k < st.actions@.len() && st.actions@[k] is RemoveCUProver;
                    assert(st.actions@[k] == acts[k]);
                }
            }
            let m = apply_actions(current, acts).unwrap();
            let m2 = apply_actions(current, st.actions@).unwrap();
            assert(!m.contains_key(core_id));
            assert(m2 == m.insert(core_id, CUStatus::Running { cu_id }));
            assert forall|k: int| 0 <= k < acts.len() implies {
                &&& m.contains_key(action_core(#[trigger] acts[k]))
                &&& !(acts[k] is RemoveCUProver)
            } by {
                if acts[k] is RemoveCUProver {
                    assert(removes_some(acts));
                }
            }
            assert forall|k: int| 0 <= k < st.actions@.len() implies (m2.contains_key(
                action_core(#[trigger] st.actions@[k]),
            ) <==> !(st.actions@[k] is RemoveCUProver)) by {
                if k < acts.len() {
                    assert(st.actions@[k] == acts[k]);
                }
            }
            assert forall|k: int, l: int|
                0 <= k < st.actions@.len() && 0 <= l < st.actions@.len() && k != l implies action_core(
                #[trigger] st.actions@[k],
            ) != action_core(#[trigger] st.actions@[l]) by {
                if k < acts.len() {
                    assert(st.actions@[k] == acts[k]);
                }
                if l < acts.len() {
                    assert(st.actions@[l] == acts[l]);
                }
            }
            assert forall|k: int| 0 <= k < acts.len() && (acts[k] is RemoveCUProver
                || acts[k] is NewCCJobWithRepining) implies !allocation.contains_key(
                acted_core(#[trigger] acts[k])->0,
            ) by {
                assert(action_fits(acts[k], current, allocation, st.is_new_epoch));
            }
            assert forall|k: int|
                0 <= k < st.actions@.len() && (st.actions@[k] is RemoveCUProver
                    || st.actions@[k] is NewCCJobWithRepining) implies !m2.contains_key(
                acted_core(#[trigger] st.actions@[k])->0,
            ) by {
                if k < acts.len() {
                    assert(st.actions@[k] == acts[k]);
                }
            }
            assert forall|k: int, l: int|
                0 <= k < st.actions@.len() && 0 <= l < st.actions@.len() && k != l && acted_core(
                    #[trigger] st.actions@[k],
                ) is Some implies acted_core(st.actions@[k]) != acted_core(
                #[trigger] st.actions@[l],
            ) by {
                if k < acts.len() {
                    assert(st.actions@[k] == acts[k]);
                }
                if l < acts.len() {
                    assert(st.actions@[l] == acts[l]);
                }
            }
        }
        i = i + 1;
    }
    proof {
        assert(u.skip(u.len() as int) =~= Seq::<(PhysicalCoreId, CUID)>::empty());
    }
}

/// Fifth stage: remove every prover whose core is no longer allocated.
fn prepare_removal_actions(
    st: &mut RoadmapBuilderState,
    Ghost(current): Ghost<Map<PhysicalCoreId, CUStatus>>,
    Ghost(allocation): Ghost<Map<PhysicalCoreId, CUID>>,
)
    requires
        on_track(
            current,
            allocation,
            old(st).actions@,
            Seq::<(PhysicalCoreId, CUID)>::empty(),
            old(st).unprepared_removal_actions@,
        ),
        all_fit(old(st).actions@, current, allocation, old(st).is_new_epoch),
        distinct_cores(old(st).actions@),
        cores_tracked(current, old(st).actions@),
        acted_distinct(old(st).actions@),
        acted_gone(current, old(st).actions@),
        in_stage_order(old(st).actions@),
        ranks_at_most(old(st).actions@, 3),
    ensures
        final(st).is_new_epoch == old(st).is_new_epoch,
        final(st).epoch == old(st).epoch,
        final(st).pre_actions@ == old(st).pre_actions@,
        final(st).unprepared_allocation_actions@ == old(st).unprepared_allocation_actions@,
        final(st).unprepared_removal_actions@ == old(st).unprepared_removal_actions@,
        on_track(
            current,
            allocation,
            final(st).actions@,
            Seq::<(PhysicalCoreId, CUID)>::empty(),
            Seq::<PhysicalCoreId>::empty(),
        ),
        in_stage_order(final(st).actions@),
        all_fit(final(st).actions@, current, allocation, final(st).is_new_epoch),
        keeps_prefix(old(st).actions@, final(st).actions@),
        old(st).unprepared_removal_actions@.len() == 0 ==> final(st).actions@ == old(
            st,
        ).actions@,
        !creates_some(old(st).actions@) ==> !creates_some(final(st).actions@),
        distinct_cores(final(st).actions@),
        cores_tracked(current, final(st).actions@),
        acted_distinct(final(st).actions@),
        acted_gone(current, final(st).actions@),
{
    let ghost rm = st.unprepared_removal_actions@;
    let ghost nothing = Seq::<(PhysicalCoreId, CUID)>::empty();
    proof {
        assert(rm.skip(0) =~= rm);
    }
    let mut i: usize = 0;
    while i < st.unprepared_removal_actions.len()
        invariant
            0 <= i <= rm.len(),
            st.unprepared_removal_actions@ == rm,
            st.unprepared_allocation_actions@ == old(st).unprepared_allocation_actions@,
            st.is_new_epoch == old(st).is_new_epoch,
            st.epoch == old(st).epoch,
            st.pre_actions@ == old(st).pre_actions@,
            rm == old(st).unprepared_removal_actions@,
            nothing == Seq::<(PhysicalCoreId, CUID)>::empty(),
            on_track(current, allocation, st.actions@, nothing, rm.skip(i as int)),
            rm.no_duplicates(),
            all_fit(st.actions@, current, allocation, st.is_new_epoch),
            keeps_prefix(old(st).actions@, st.actions@),
            i == 0 ==> st.actions@ == old(st).actions@,
            !creates_some(old(st).actions@) ==> !creates_some(st.actions@),
            distinct_cores(st.actions@),
            cores_tracked(current, st.actions@),
            acted_distinct(st.actions@),
            acted_gone(current, st.actions@),
            in_stage_order(st.actions@),
            ranks_at_most(st.actions@, 3),
        decreases rm.len() - i,
    {
        let current_core_id = st.unprepared_removal_actions[i];
        let action = CUProverAction::remove_cu_prover(current_core_id);
        let ghost acts = st.actions@;
        st.actions.push(action);
        proof {
            lemma_push_in_order(acts, action);
            assert(pending_cores(nothing) =~= Seq::<PhysicalCoreId>::empty());
            lemma_skip_contains(rm, i as int, current_core_id);
            lemma_apply_push(current, acts, action);
            assert(rm.skip(i as int)[0] == current_core_id);
            assert forall|c: PhysicalCoreId|
                #[trigger] apply_actions(current, st.actions@).unwrap().contains_key(c) <==> ((
                allocation.contains_key(c) && !pending_cores(nothing).contains(c)) || rm.skip(
                    i + 1,
                ).contains(c)) by {
                lemma_skip_contains(rm, i as int, c);
            }
            assert(!creates_some(old(st).actions@) ==> !creates_some(st.actions@)) by {
                if !creates_some(old(st).actions@) && creates_some(st.actions@) {
                    let k = choose|k: int|
                        0 <= k < st.actions@.len() && st.actions@[k] is CreateCUProver;
                    assert(st.actions@[k] == acts[k]);
                }
            }
            assert forall|j: int| 0 <= j < rm.skip(i + 1).len() implies {
                &&& current.contains_key(#[trigger] rm.skip(i + 1)[j])
                &&& !allocation.contains_key(rm.skip(i + 1)[j])
            } by {
                assert(rm.skip(i + 1)[j] == rm.skip(i as int)[j + 1]);
            }
            assert forall|k: int| 0 <= k < st.actions@.len() implies action_fits(
                #[trigger] st.actions@[k],
                current,
                allocation,
                st.is_new_epoch,
            ) by {
                if k < acts.len() {
                    assert(st.actions@[k] == acts[k]);
                }
            }
            let m = apply_actions(current, acts).unwrap();
            let m2 = apply_actions(current, st.actions@).unwrap();
            assert(rm.skip(i as int).contains(current_core_id));
            assert(m.contains_key(current_core_id));
            assert(!allocation.contains_key(current_core_id));
            assert(m2 == m.remove(current_core_id));
            assert forall|k: int| 0 <= k < acts.len() && !(#[trigger] acts[k] is RemoveCUProver)
                implies allocation.contains_key(action_core(acts[k])) by {
                assert(action_fits(acts[k], current, allocation, st.is_new_epoch));
            }
            assert forall|k: int| 0 <= k < st.actions@.len() implies (m2.contains_key(
                action_core(#[trigger] st.actions@[k]),
            ) <==> !(st.actions@[k] is RemoveCUProver)) by {
                if k < acts.len() {
                    assert(st.actions@[k] == acts[k]);
                }
            }
            assert forall|k: int, l: int|
                0 <= k < st.actions@.len() && 0 <= l < st.actions@.len() && k != l implies action_core(
                #[trigger] st.actions@[k],
            ) != action_core(#[trigger] st.actions@[l]) by {
                if k < acts.len() {
                    assert(st.actions@[k] == acts[k]);
                }
                if l < acts.len() {
                    assert(st.actions@[l] == acts[l]);
                }
            }
            assert forall|k: int| 0 <= k < acts.len() && acts[k] is NewCCJob implies allocation.contains_key(
                acted_core(#[trigger] acts[k])->0,
            ) by {
                assert(action_fits(acts[k], current, allocation, st.is_new_epoch));
            }
            assert forall|k: int|
                0 <= k < st.actions@.len() && (st.actions@[k] is RemoveCUProver
                    || st.actions@[k] is NewCCJobWithRepining) implies !m2.contains_key(
                acted_core(#[trigger] st.actions@[k])->0,
            ) by {
                if k < acts.len() {
                    assert(st.actions@[k] == acts[k]);
                }
            }
            assert forall|k: int, l: int|
                0 <= k < st.actions@.len() && 0 <= l < st.actions@.len() && k != l && acted_core(
                    #[trigger] st.actions@[k],
                ) is Some implies acted_core(st.actions@[k]) != acted_core(
                #[trigger] st.actions@[l],
            ) by {
                if k < acts.len() {
                    assert(st.actions@[k] == acts[k]);
                }
                if l < acts.len() {
                    assert(st.actions@[l] == acts[l]);
                }
            }
        }
        i = i + 1;
    }
    proof {
        assert(rm.skip(rm.len() as int) =~= Seq::<PhysicalCoreId>::empty());
    }
}


impl CCProverAlignmentRoadmap {
    /// Computes the roadmap from the current provers (by the status of each) and the status of
    /// the whole prover to the new allocation in the new epoch.
    ///
    /// Applied in order, the actions leave exactly one prover on every allocated core, running
    /// the compute unit allocated to it: new jobs where a prover stays on its core but its
    /// compute unit or the epoch changes, moves of provers from cores that are no longer
    /// allocated to newly allocated cores, and as many creations or removals as are left over.
    /// Proofs are cleaned up first when the epoch changes.
    pub fn create_roadmap(
        new_allocation: CUAllocation,
        new_epoch: EpochParameters,
        current_allocation: &HashMap<PhysicalCoreId, CUStatus>,
        current_status: CCStatus,
    ) -> (r: CCProverAlignmentRoadmap)
        ensures
            r.epoch == new_epoch,
            r.pre_action == (if is_new_epoch_spec(new_epoch, current_status) {
                CUProverPreAction::CleanupProofCache
            } else {
                CUProverPreAction::NoAction
            }),
            apply_actions(current_allocation@, r.actions@) == Some(
                aligned_state(new_allocation@),
            ),
            forall|i: int|
                0 <= i < r.actions@.len() ==> action_fits(
                    #[trigger] r.actions@[i],
                    current_allocation@,
                    new_allocation@,
                    is_new_epoch_spec(new_epoch, current_status),
                ),
            forall|c: PhysicalCoreId|
                new_allocation@.contains_key(c) && current_allocation@.contains_key(c)
                    && needs_new_job(
                    current_allocation@[c],
                    new_allocation@[c],
                    is_new_epoch_spec(new_epoch, current_status),
                ) ==> #[trigger] r.actions@.contains(
                    CUProverAction::NewCCJob(
                        NewCCJobState { current_core_id: c, new_cu_id: new_allocation@[c] },
                    ),
                ),
            !(creates_some(r.actions@) && removes_some(r.actions@)),
            (!is_new_epoch_spec(new_epoch, current_status) && current_allocation@
                == aligned_state(new_allocation@)) ==> r.actions@.len() == 0,
            distinct_cores(r.actions@),
            r.actions@.no_duplicates(),
            finds_provers(current_allocation@, r.actions@),
            in_stage_order(r.actions@),
    {
        let ghost s = current_allocation@;
        let ghost a = new_allocation@;
        let mut st = RoadmapBuilderState::from(new_epoch, current_status);
        let remaining = collect_allocation_and_new_job_actions(
            &mut st,
            &new_allocation,
            current_allocation,
        );
        collect_removal_actions(&mut st, current_allocation, &remaining);
        proof {
            let u = st.unprepared_allocation_actions@;
            let rm = st.unprepared_removal_actions@;
            let m = apply_actions(s, st.actions@).unwrap();
            assert forall|c: PhysicalCoreId| pending_cores(u).contains(c) implies (a.contains_key(c)
                && !s.contains_key(c)) by {
                let j = choose|j: int|
                    0 <= j < pending_cores(u).len() && pending_cores(u)[j] == c;
                assert(u[j].0 == c);
            }
            assert forall|c: PhysicalCoreId| #[trigger] m.contains_key(c) <==> ((a.contains_key(c)
                && !pending_cores(u).contains(c)) || rm.contains(c)) by {
                if a.contains_key(c) && !s.contains_key(c) {
                    assert(pending_cores(u).contains(c));
                }
            }
            assert forall|j: int| 0 <= j < rm.len() implies {
                &&& s.contains_key(#[trigger] rm[j])
                &&& !a.contains_key(rm[j])
            } by {
                assert(rm.contains(rm[j]));
            }
            assert(!creates_some(st.actions@)) by {
                if creates_some(st.actions@) {
                    let k = choose|k: int|
                        0 <= k < st.actions@.len() && st.actions@[k] is CreateCUProver;
                    assert(st.actions@[k] is NewCCJob);
                }
            }
            assert(!removes_some(st.actions@)) by {
                if removes_some(st.actions@) {
                    let k = choose|k: int|
                        0 <= k < st.actions@.len() && st.actions@[k] is RemoveCUProver;
                    assert(st.actions@[k] is NewCCJob);
                }
            }
            assert(on_track(s, a, st.actions@, u, rm));
            assert forall|k: int| 0 <= k < st.actions@.len() implies (m.contains_key(
                action_core(#[trigger] st.actions@[k]),
            ) <==> !(st.actions@[k] is RemoveCUProver)) by {
                assert(action_fits(st.actions@[k], s, a, st.is_new_epoch));
            }
            assert forall|k: int, l: int|
                0 <= k < st.actions@.len() && 0 <= l < st.actions@.len() && k != l && acted_core(
                    #[trigger] st.actions@[k],
                ) is Some implies acted_core(st.actions@[k]) != acted_core(
                #[trigger] st.actions@[l],
            ) by {
                assert(st.actions@[k] is NewCCJob);
                assert(st.actions@[l] is NewCCJob);
                assert(action_core(st.actions@[k]) != action_core(st.actions@[l]));
            }
            assert forall|k: int| 0 <= k < st.actions@.len() implies action_rank(
                #[trigger] st.actions@[k],
            ) <= 0 by {
                assert(st.actions@[k] is NewCCJob);
            }
            assert forall|k: int, l: int| 0 <= k < l < st.actions@.len() implies action_rank(
                #[trigger] st.actions@[k],
            ) <= action_rank(#[trigger] st.actions@[l]) by {
                assert(st.actions@[k] is NewCCJob);
                assert(st.actions@[l] is NewCCJob);
            }
        }
        let ghost first_actions = st.actions@;
        substitute_removal_and_allocation_actions(&mut st, Ghost(s), Ghost(a));
        let ghost third_actions = st.actions@;
        let ghost third_alloc_empty = st.unprepared_allocation_actions@.len() == 0;
        prepare_allocation_actions(&mut st, Ghost(s), Ghost(a));
        let ghost fourth_actions = st.actions@;
        prepare_removal_actions(&mut st, Ghost(s), Ghost(a));
        proof {
            let m = apply_actions(s, st.actions@).unwrap();
            assert(pending_cores(Seq::<(PhysicalCoreId, CUID)>::empty()) =~= Seq::<
                PhysicalCoreId,
            >::empty());
            assert(m =~= aligned_state(a));
            assert forall|c: PhysicalCoreId|
                a.contains_key(c) && s.contains_key(c) && needs_new_job(
                    s[c],
                    a[c],
                    st.is_new_epoch,
                ) implies #[trigger] st.actions@.contains(
                CUProverAction::NewCCJob(NewCCJobState { current_core_id: c, new_cu_id: a[c] }),
            ) by {
                let x = CUProverAction::NewCCJob(
                    NewCCJobState { current_core_id: c, new_cu_id: a[c] },
                );
                assert(first_actions.contains(x));
                let k = choose|k: int| 0 <= k < first_actions.len() && first_actions[k] == x;
                assert(third_actions[k] == x);
                assert(fourth_actions[k] == x);
                assert(st.actions@[k] == x);
            }
            if !third_alloc_empty {
                assert(fourth_actions == st.actions@);
            }
            assert forall|k: int| 0 <= k < st.actions@.len() implies (acted_core(
                #[trigger] st.actions@[k],
            ) matches Some(c) ==> s.contains_key(c)) by {
                assert(action_fits(st.actions@[k], s, a, st.is_new_epoch));
            }
            assert(st.actions@.no_duplicates()) by {
                assert forall|k: int, l: int|
                    0 <= k < st.actions@.len() && 0 <= l < st.actions@.len() && k != l implies st.actions@[k]
                    != st.actions@[l] by {
                    assert(action_core(st.actions@[k]) != action_core(st.actions@[l]));
                }
            }
            if !is_new_epoch_spec(new_epoch, current_status) && s == aligned_state(a) {
                if st.actions@.len() > 0 {
                    let x = st.actions@[0];
                    assert(action_fits(x, s, a, st.is_new_epoch));
                    match x {
                        CUProverAction::NewCCJob(j) => {
                            assert(s[j.current_core_id] == CUStatus::Running {
                                cu_id: a[j.current_core_id],
                            });
                        },
                        _ => {},
                    }
                }
            }
        }
        build(st)
    }
}

/// Last stage: the roadmap itself.
fn build(st: RoadmapBuilderState) -> (r: CCProverAlignmentRoadmap)
    ensures
        r.epoch == st.epoch,
        r.actions@ == st.actions@,
        r.pre_action == (if st.pre_actions@.len() > 0 {
            st.pre_actions@[0]
        } else {
            CUProverPreAction::NoAction
        }),
{
    let pre_action = if st.pre_actions.len() > 0 {
        st.pre_actions[0]
    } else {
        CUProverPreAction::no_action()
    };
    CCProverAlignmentRoadmap { pre_action, actions: st.actions, epoch: st.epoch }
}

} // verus!
