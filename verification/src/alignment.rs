//! Carrying out a roadmap: every action gets the prover it works on, and once the actions ran
//! the provers that stay are put back under their cores and the failures are gathered.

use std::collections::HashMap;
use vstd::prelude::*;

use crate::errors::CCProverError;
use crate::errors::CUProverError;
use crate::status::CUStatus;
use crate::roadmap::acted_core;
use crate::roadmap::action_core;
use crate::roadmap::action_fits;
use crate::roadmap::aligned_state;
use crate::roadmap::apply_actions;
use crate::roadmap::distinct_cores;
use crate::roadmap::finds_provers;
use crate::roadmap::CUProverAction;
use crate::roadmap::CUProverPreAction;
use crate::types::PhysicalCoreId;
use crate::types::CUID;

verus! {

broadcast use vstd::std_specs::hash::group_hash_axioms;

/// What is left of an action once it ran: a prover to keep, or nothing (a removed prover).
#[derive(Debug)]
pub enum AlignmentPostAction<P> {
    KeepProver(P),
    Nothing,
}

/// Whether the actions find their provers depends only on the cores that have one: a roadmap
/// made from the statuses of the provers finds the provers themselves.
pub proof fn lemma_finds_provers_of_same_cores<V, W>(
    statuses: Map<PhysicalCoreId, V>,
    provers: Map<PhysicalCoreId, W>,
    actions: Seq<CUProverAction>,
)
    requires
        finds_provers(statuses, actions),
        statuses.dom() == provers.dom(),
    ensures
        finds_provers(provers, actions),
{
    assert forall|i: int| 0 <= i < actions.len() implies (acted_core(#[trigger] actions[i]) matches Some(c)
        ==> provers.contains_key(c)) by {
        if let Some(c) = acted_core(actions[i]) {
            assert(statuses.dom().contains(c));
        }
    }
}

/// The core of the prover an action works on.
fn acted_core_of(action: &CUProverAction) -> (r: Option<PhysicalCoreId>)
    ensures
        r == acted_core(*action),
{
    match action {
        CUProverAction::CreateCUProver(_) => None,
        CUProverAction::RemoveCUProver(st) => Some(st.current_core_id),
        CUProverAction::NewCCJob(st) => Some(st.current_core_id),
        CUProverAction::NewCCJobWithRepining(st) => Some(st.current_core_id),
    }
}

/// Whether every action that works on an existing prover finds it in `provers`, no two of them
/// wanting the same one.
pub fn actions_find_provers<P>(
    provers: &HashMap<PhysicalCoreId, P>,
    actions: &Vec<CUProverAction>,
) -> (r: bool)
    ensures
        r == finds_provers(provers@, actions@),
{
    let mut i: usize = 0;
    while i < actions.len()
        invariant
            0 <= i <= actions@.len(),
            forall|k: int|
                0 <= k < i ==> (acted_core(#[trigger] actions@[k]) matches Some(c)
                    ==> provers@.contains_key(c)),
            forall|k: int, l: int|
                0 <= k < i && 0 <= l < actions@.len() && k != l && acted_core(
                    #[trigger] actions@[k],
                ) is Some ==> acted_core(actions@[k]) != acted_core(#[trigger] actions@[l]),
        decreases actions@.len() - i,
    {
        match acted_core_of(&actions[i]) {
            None => {},
            Some(c) => {
                if !provers.contains_key(&c) {
                    return false;
                }
                let mut j: usize = 0;
                while j < actions.len()
                    invariant
                        0 <= i < actions@.len(),
                        0 <= j <= actions@.len(),
                        acted_core(actions@[i as int]) == Some(c),
                        forall|l: int|
                            0 <= l < j && l != i ==> acted_core(#[trigger] actions@[l]) != Some(c),
                    decreases actions@.len() - j,
                {
                    if j != i {
                        let same = match acted_core_of(&actions[j]) {
                            Some(d) => d == c,
                            None => false,
                        };
                        if same {
                            assert(!finds_provers(provers@, actions@)) by {
                                assert(acted_core(actions@[i as int]) == acted_core(
                                    actions@[j as int],
                                ));
                            }
                            return false;
                        }
                    }
                    j = j + 1;
                }
            },
        }
        i = i + 1;
    }
    true
}

/// What happens before the actions of a roadmap run.
#[derive(Clone, Copy, Debug, PartialEq, Eq, Structural)]
pub enum PreAlignmentStep {
    /// Every prover stops proving.
    PauseProvers,
    /// Every stored proof is removed.
    RemoveProofs,
}

/// The steps taken before the actions of a roadmap with `pre_action`: a proof cleanup first
/// pauses every prover, so that none writes a proof of the old epoch, and then empties the proof
/// storage; no pre-action takes no step.
pub fn pre_alignment_steps(pre_action: CUProverPreAction) -> (r: Vec<PreAlignmentStep>)
    ensures
        r@ == (match pre_action {
            CUProverPreAction::CleanupProofCache => seq![
                PreAlignmentStep::PauseProvers,
                PreAlignmentStep::RemoveProofs,
            ],
            CUProverPreAction::NoAction => Seq::<PreAlignmentStep>::empty(),
        }),
{
    let mut steps: Vec<PreAlignmentStep> = Vec::new();
    match pre_action {
        CUProverPreAction::CleanupProofCache => {
            steps.push(PreAlignmentStep::PauseProvers);
            steps.push(PreAlignmentStep::RemoveProofs);
            proof {
                assert(steps@ =~= seq![
                    PreAlignmentStep::PauseProvers,
                    PreAlignmentStep::RemoveProofs,
                ]);
            }
        },
        CUProverPreAction::NoAction => {
            proof {
                assert(steps@ =~= Seq::<PreAlignmentStep>::empty());
            }
        },
    }
    steps
}

/// Takes the prover of every action out of `provers`, in the order of the actions: `None` for a
/// creation, the prover of the action's core otherwise.
pub fn take_provers<P>(provers: &mut HashMap<PhysicalCoreId, P>, actions: &Vec<CUProverAction>) -> (r:
    Vec<Option<P>>)
    requires
        finds_provers(old(provers)@, actions@),
    ensures
        r@.len() == actions@.len(),
        forall|i: int|
            0 <= i < actions@.len() ==> match acted_core(#[trigger] actions@[i]) {
                None => r@[i] is None,
                Some(c) => r@[i] == Some(old(provers)@[c]),
            },
        forall|c: PhysicalCoreId|
            #[trigger] final(provers)@.contains_key(c) <==> (old(provers)@.contains_key(c) && !(
            exists|i: int| 0 <= i < actions@.len() && acted_core(actions@[i]) == Some(c))),
        forall|c: PhysicalCoreId|
            #[trigger] final(provers)@.contains_key(c) ==> final(provers)@[c] == old(provers)@[c],
{
    let mut taken: Vec<Option<P>> = Vec::new();
    let mut i: usize = 0;
    while i < actions.len()
        invariant
            0 <= i <= actions@.len(),
            finds_provers(old(provers)@, actions@),
            taken@.len() == i,
            forall|k: int|
                0 <= k < i ==> match acted_core(#[trigger] actions@[k]) {
                    None => taken@[k] is None,
                    Some(c) => taken@[k] == Some(old(provers)@[c]),
                },
            forall|c: PhysicalCoreId|
                #[trigger] provers@.contains_key(c) <==> (old(provers)@.contains_key(c) && !(
                exists|k: int| 0 <= k < i && acted_core(actions@[k]) == Some(c))),
            forall|c: PhysicalCoreId|
                #[trigger] provers@.contains_key(c) ==> provers@[c] == old(provers)@[c],
        decreases actions@.len() - i,
    {
        let ghost before = provers@;
        let prover: Option<P> = match &actions[i] {
            CUProverAction::CreateCUProver(_) => None,
            CUProverAction::RemoveCUProver(st) => {
                proof {
                    lemma_not_taken_yet(old(provers)@, actions@, i as int, before);
                }
                Some(provers.remove(&st.current_core_id).unwrap())
            },
            CUProverAction::NewCCJob(st) => {
                proof {
                    lemma_not_taken_yet(old(provers)@, actions@, i as int, before);
                }
                Some(provers.remove(&st.current_core_id).unwrap())
            },
            CUProverAction::NewCCJobWithRepining(st) => {
                proof {
                    lemma_not_taken_yet(old(provers)@, actions@, i as int, before);
                }
                Some(provers.remove(&st.current_core_id).unwrap())
            },
        };
        let ghost before_taken = taken@;
        taken.push(prover);
        proof {
            assert forall|c: PhysicalCoreId| #[trigger] provers@.contains_key(c) <==> (old(
                provers,
            )@.contains_key(c) && !(exists|k: int|
                0 <= k < i + 1 && acted_core(actions@[k]) == Some(c))) by {
                if exists|k: int| 0 <= k < i + 1 && acted_core(actions@[k]) == Some(c) {
                    let k = choose|k: int| 0 <= k < i + 1 && acted_core(actions@[k]) == Some(c);
                    if k < i {
                        assert(!before.contains_key(c));
                    }
                } else {
                    assert(!(exists|k: int| 0 <= k < i && acted_core(actions@[k]) == Some(c)));
                }
            }
            assert forall|k: int| 0 <= k < i + 1 implies match acted_core(#[trigger] actions@[k]) {
                None => taken@[k] is None,
                Some(c) => taken@[k] == Some(old(provers)@[c]),
            } by {
                if k < i {
                    assert(taken@[k] == before_taken[k]);
                }
            }
        }
        i = i + 1;
    }
    taken
}

/// The prover of the action at `i` is still there when its turn comes.
proof fn lemma_not_taken_yet<P>(
    provers: Map<PhysicalCoreId, P>,
    actions: Seq<CUProverAction>,
    i: int,
    now: Map<PhysicalCoreId, P>,
)
    requires
        finds_provers(provers, actions),
        0 <= i < actions.len(),
        acted_core(actions[i]) is Some,
        forall|c: PhysicalCoreId|
            #[trigger] now.contains_key(c) <==> (provers.contains_key(c) && !(exists|k: int|
                0 <= k < i && acted_core(actions[k]) == Some(c))),
        forall|c: PhysicalCoreId| #[trigger] now.contains_key(c) ==> now[c] == provers[c],
    ensures
        now.contains_key(acted_core(actions[i])->0),
        now[acted_core(actions[i])->0] == provers[acted_core(actions[i])->0],
{
    let c = acted_core(actions[i])->0;
    assert(provers.contains_key(c));
    if exists|k: int| 0 <= k < i && acted_core(actions[k]) == Some(c) {
        let k = choose|k: int| 0 <= k < i && acted_core(actions[k]) == Some(c);
        assert(acted_core(actions[i]) != acted_core(actions[k]));
    }
}

/// The provers kept by the actions that succeeded, in order, each under the core its action
/// leaves it on: the core of a new prover, the core a prover moves to, the core of a new job.
pub open spec fn kept_provers<P>(
    actions: Seq<CUProverAction>,
    outcomes: Seq<Result<AlignmentPostAction<P>, CUProverError>>,
) -> Seq<(PhysicalCoreId, P)>
    decreases outcomes.len(),
{
    if outcomes.len() == 0 {
        Seq::empty()
    } else {
        let kept = kept_provers(actions, outcomes.drop_last());
        match outcomes.last() {
            Ok(AlignmentPostAction::KeepProver(prover)) => kept.push(
                (action_core(actions[outcomes.len() - 1]), prover),
            ),
            _ => kept,
        }
    }
}

/// The errors of the actions that failed, in order.
pub open spec fn failures<P>(outcomes: Seq<Result<AlignmentPostAction<P>, CUProverError>>) -> Seq<
    CUProverError,
>
    decreases outcomes.len(),
{
    if outcomes.len() == 0 {
        Seq::empty()
    } else {
        let failed = failures(outcomes.drop_last());
        match outcomes.last() {
            Err(e) => failed.push(e),
            _ => failed,
        }
    }
}

/// The provers with the kept ones put in, one after the other.
pub open spec fn with_kept<P>(
    provers: Map<PhysicalCoreId, P>,
    kept: Seq<(PhysicalCoreId, P)>,
) -> Map<PhysicalCoreId, P>
    decreases kept.len(),
{
    if kept.len() == 0 {
        provers
    } else {
        with_kept(provers, kept.drop_last()).insert(kept.last().0, kept.last().1)
    }
}

/// The core an action leaves its prover on.
fn action_core_of(action: &CUProverAction) -> (r: PhysicalCoreId)
    ensures
        r == action_core(*action),
{
    match action {
        CUProverAction::CreateCUProver(st) => st.new_core_id,
        CUProverAction::RemoveCUProver(st) => st.current_core_id,
        CUProverAction::NewCCJob(st) => st.current_core_id,
        CUProverAction::NewCCJobWithRepining(st) => st.new_core_id,
    }
}

/// Puts the provers that the actions kept back, each under the core its action leaves it on (a
/// moved prover under its new core), and reports the actions that failed: `Ok` when none did,
/// otherwise every error, in order. The kept provers are put back either way. `outcomes` holds
/// one outcome per action, in the order of the actions.
pub fn settle_alignment<P>(
    provers: &mut HashMap<PhysicalCoreId, P>,
    actions: &Vec<CUProverAction>,
    outcomes: Vec<Result<AlignmentPostAction<P>, CUProverError>>,
) -> (r: Result<(), CCProverError>)
    requires
        outcomes@.len() == actions@.len(),
    ensures
        final(provers)@ == with_kept(old(provers)@, kept_provers(actions@, outcomes@)),
        r is Ok <==> failures(outcomes@).len() == 0,
        r is Err ==> (r matches Err(CCProverError::CUProverErrors(errors)) && errors@ == failures(
            outcomes@,
        )),
{
    let ghost all = outcomes@;
    let mut rest = outcomes;
    let mut errors: Vec<CUProverError> = Vec::new();
    let ghost mut seen: Seq<Result<AlignmentPostAction<P>, CUProverError>> = Seq::empty();
    let mut i: usize = 0;
    let n: usize = actions.len();
    while rest.len() > 0
        invariant
            n == actions@.len(),
            all == seen + rest@,
            all.len() == actions@.len(),
            i == seen.len(),
            provers@ == with_kept(old(provers)@, kept_provers(actions@, seen)),
            errors@ == failures(seen),
        decreases rest@.len(),
    {
        assert(i < n) by {
            assert(all.len() == seen.len() + rest@.len());
        }
        let outcome = rest.remove(0);
        let ghost o = outcome;
        proof {
            assert(seen.push(o) + rest@ =~= all);
            assert(seen.push(o).drop_last() =~= seen);
        }
        match outcome {
            Ok(AlignmentPostAction::KeepProver(prover)) => {
                let core_id = action_core_of(&actions[i]);
                provers.insert(core_id, prover);
                proof {
                    let kept = kept_provers(actions@, seen);
                    assert(kept_provers(actions@, seen.push(o)) == kept.push((core_id, prover)));
                    assert(kept.push((core_id, prover)).drop_last() =~= kept);
                }
            },
            Ok(AlignmentPostAction::Nothing) => {},
            Err(error) => {
                errors.push(error);
            },
        }
        proof {
            seen = seen.push(o);
        }
        i = i + 1;
    }
    proof {
        assert(seen =~= all);
    }
    if errors.len() == 0 {
        Ok(())
    } else {
        Err(CCProverError::CUProverErrors(errors))
    }
}

/// A core that no action works on keeps its prover.
proof fn lemma_untouched_core_stays(
    s: Map<PhysicalCoreId, CUStatus>,
    acts: Seq<CUProverAction>,
    c: PhysicalCoreId,
)
    requires
        apply_actions(s, acts) is Some,
        s.contains_key(c),
        forall|i: int| 0 <= i < acts.len() ==> acted_core(#[trigger] acts[i]) != Some(c),
    ensures
        apply_actions(s, acts).unwrap().contains_key(c),
    decreases acts.len(),
{
    if acts.len() > 0 {
        let prev = acts.drop_last();
        assert forall|i: int| 0 <= i < prev.len() implies acted_core(#[trigger] prev[i]) != Some(
            c,
        ) by {
            assert(prev[i] == acts[i]);
        }
        lemma_untouched_core_stays(s, prev, c);
        assert(acted_core(acts[acts.len() - 1]) != Some(c));
    }
}

/// A core that holds a prover after the actions, and that no action leaves a prover on, held
/// one before and no action worked on it.
proof fn lemma_core_without_action(
    s: Map<PhysicalCoreId, CUStatus>,
    acts: Seq<CUProverAction>,
    c: PhysicalCoreId,
)
    requires
        apply_actions(s, acts) is Some,
        apply_actions(s, acts).unwrap().contains_key(c),
        forall|i: int|
            0 <= i < acts.len() && !(acts[i] is RemoveCUProver) ==> action_core(#[trigger] acts[i])
                != c,
    ensures
        s.contains_key(c),
        forall|i: int| 0 <= i < acts.len() ==> acted_core(#[trigger] acts[i]) != Some(c),
    decreases acts.len(),
{
    if acts.len() > 0 {
        let prev = acts.drop_last();
        let last = acts[acts.len() - 1];
        assert(!(last is RemoveCUProver) ==> action_core(last) != c);
        assert forall|i: int|
            0 <= i < prev.len() && !(prev[i] is RemoveCUProver) implies action_core(
            #[trigger] prev[i],
        ) != c by {
            assert(prev[i] == acts[i]);
        }
        lemma_core_without_action(s, prev, c);
        assert forall|i: int| 0 <= i < acts.len() implies acted_core(#[trigger] acts[i]) != Some(
            c,
        ) by {
            if i < prev.len() {
                assert(prev[i] == acts[i]);
            }
        }
    }
}

/// The core an action leaves a prover on still holds one after all the actions.
proof fn lemma_kept_core_stays(
    s: Map<PhysicalCoreId, CUStatus>,
    allocation: Map<PhysicalCoreId, CUID>,
    new_epoch: bool,
    acts: Seq<CUProverAction>,
    i: int,
)
    requires
        apply_actions(s, acts) is Some,
        0 <= i < acts.len(),
        !(acts[i] is RemoveCUProver),
        distinct_cores(acts),
        forall|k: int| 0 <= k < acts.len() ==> action_fits(#[trigger] acts[k], s, allocation, new_epoch),
    ensures
        apply_actions(s, acts).unwrap().contains_key(action_core(acts[i])),
    decreases acts.len(),
{
    let prev = acts.drop_last();
    let n = acts.len() - 1;
    if i < n {
        assert forall|k: int| 0 <= k < prev.len() implies action_fits(
            #[trigger] prev[k],
            s,
            allocation,
            new_epoch,
        ) by {
            assert(prev[k] == acts[k]);
        }
        assert forall|k: int, l: int|
            0 <= k < prev.len() && 0 <= l < prev.len() && k != l implies action_core(
            #[trigger] prev[k],
        ) != action_core(#[trigger] prev[l]) by {
            assert(prev[k] == acts[k]);
            assert(prev[l] == acts[l]);
        }
        assert(prev[i] == acts[i]);
        lemma_kept_core_stays(s, allocation, new_epoch, prev, i);
        assert(action_fits(acts[i], s, allocation, new_epoch));
        assert(action_fits(acts[n], s, allocation, new_epoch));
        assert(action_core(acts[n]) != action_core(acts[i]));
    }
}

/// Whether some kept prover goes to core `c`.
pub open spec fn kept_on<P>(kept: Seq<(PhysicalCoreId, P)>, c: PhysicalCoreId) -> bool {
    exists|k: int| 0 <= k < kept.len() && (#[trigger] kept[k]).0 == c
}

proof fn lemma_with_kept_cores<P>(
    provers: Map<PhysicalCoreId, P>,
    kept: Seq<(PhysicalCoreId, P)>,
    c: PhysicalCoreId,
)
    ensures
        with_kept(provers, kept).contains_key(c) <==> (provers.contains_key(c) || kept_on(kept, c)),
    decreases kept.len(),
{
    if kept.len() > 0 {
        let prev = kept.drop_last();
        lemma_with_kept_cores(provers, prev, c);
        if kept_on(prev, c) {
            let k = choose|k: int| 0 <= k < prev.len() && (#[trigger] prev[k]).0 == c;
            assert(kept[k] == prev[k]);
        }
        if kept_on(kept, c) && kept.last().0 != c {
            let k = choose|k: int| 0 <= k < kept.len() && (#[trigger] kept[k]).0 == c;
            assert(prev[k] == kept[k]);
        }
        if kept.last().0 == c {
            assert(kept[kept.len() - 1].0 == c);
        }
    }
}

proof fn lemma_kept_provers_cores<P>(
    actions: Seq<CUProverAction>,
    outcomes: Seq<Result<AlignmentPostAction<P>, CUProverError>>,
    c: PhysicalCoreId,
)
    requires
        outcomes.len() <= actions.len(),
        forall|i: int|
            0 <= i < outcomes.len() ==> ((#[trigger] outcomes[i] matches Ok(
                AlignmentPostAction::KeepProver(_),
            )) <==> !(actions[i] is RemoveCUProver)),
    ensures
        kept_on(kept_provers(actions, outcomes), c) <==> (exists|i: int|
            0 <= i < outcomes.len() && !(actions[i] is RemoveCUProver) && action_core(
                #[trigger] actions[i],
            ) == c),
    decreases outcomes.len(),
{
    if outcomes.len() > 0 {
        let prev = outcomes.drop_last();
        let n = outcomes.len() - 1;
        assert forall|i: int| 0 <= i < prev.len() implies ((#[trigger] prev[i] matches Ok(
            AlignmentPostAction::KeepProver(_),
        )) <==> !(actions[i] is RemoveCUProver)) by {
            assert(prev[i] == outcomes[i]);
        }
        lemma_kept_provers_cores(actions, prev, c);
        let kept_before = kept_provers(actions, prev);
        let kept = kept_provers(actions, outcomes);
        assert(outcomes[n] == outcomes.last());
        if kept_on(kept_before, c) {
            let k = choose|k: int| 0 <= k < kept_before.len() && (#[trigger] kept_before[k]).0 == c;
            assert(kept[k] == kept_before[k]);
        }
        if exists|i: int|
            0 <= i < outcomes.len() && !(actions[i] is RemoveCUProver) && action_core(
                #[trigger] actions[i],
            ) == c {
            let i = choose|i: int|
                0 <= i < outcomes.len() && !(actions[i] is RemoveCUProver) && action_core(
                    #[trigger] actions[i],
                ) == c;
            if i == n {
                assert(kept[kept.len() - 1].0 == c);
            }
        }
        if kept_on(kept, c) && !kept_on(kept_before, c) {
            let k = choose|k: int| 0 <= k < kept.len() && (#[trigger] kept[k]).0 == c;
            if k < kept_before.len() {
                assert(kept[k] == kept_before[k]);
            }
        }
    }
}

/// After an alignment in which every action succeeded, and every action but a removal kept its
/// prover, the provers sit exactly on the allocated cores: a moved prover on its new core, a new
/// one on its core, and every prover of a core that left the allocation gone.
pub proof fn lemma_alignment_places_provers<P>(
    statuses: Map<PhysicalCoreId, CUStatus>,
    allocation: Map<PhysicalCoreId, CUID>,
    new_epoch: bool,
    actions: Seq<CUProverAction>,
    provers: Map<PhysicalCoreId, P>,
    remaining: Map<PhysicalCoreId, P>,
    outcomes: Seq<Result<AlignmentPostAction<P>, CUProverError>>,
)
    requires
        apply_actions(statuses, actions) == Some(aligned_state(allocation)),
        forall|i: int|
            0 <= i < actions.len() ==> action_fits(
                #[trigger] actions[i],
                statuses,
                allocation,
                new_epoch,
            ),
        distinct_cores(actions),
        provers.dom() == statuses.dom(),
        forall|c: PhysicalCoreId|
            #[trigger] remaining.contains_key(c) <==> (provers.contains_key(c) && !(exists|i: int|
                0 <= i < actions.len() && acted_core(actions[i]) == Some(c))),
        outcomes.len() == actions.len(),
        forall|i: int|
            0 <= i < outcomes.len() ==> ((#[trigger] outcomes[i] matches Ok(
                AlignmentPostAction::KeepProver(_),
            )) <==> !(actions[i] is RemoveCUProver)),
    ensures
        with_kept(remaining, kept_provers(actions, outcomes)).dom() == allocation.dom(),
{
    let kept = kept_provers(actions, outcomes);
    let m = aligned_state(allocation);
    assert forall|c: PhysicalCoreId| #[trigger]
        with_kept(remaining, kept).dom().contains(c) <==> allocation.dom().contains(c) by {
        lemma_with_kept_cores(remaining, kept, c);
        lemma_kept_provers_cores(actions, outcomes, c);
        if remaining.contains_key(c) {
            assert(statuses.contains_key(c));
            assert forall|i: int| 0 <= i < actions.len() implies acted_core(
                #[trigger] actions[i],
            ) != Some(c) by {}
            lemma_untouched_core_stays(statuses, actions, c);
            assert(m.contains_key(c));
        }
        if kept_on(kept, c) {
            let i = choose|i: int|
                0 <= i < outcomes.len() && !(actions[i] is RemoveCUProver) && action_core(
                    #[trigger] actions[i],
                ) == c;
            lemma_kept_core_stays(statuses, allocation, new_epoch, actions, i);
        }
        if allocation.contains_key(c) && !kept_on(kept, c) {
            assert(m.contains_key(c));
            lemma_core_without_action(statuses, actions, c);
            assert(provers.contains_key(c));
        }
    }
    assert(with_kept(remaining, kept).dom() =~= allocation.dom());
}

} // verus!
