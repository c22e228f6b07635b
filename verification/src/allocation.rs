//! How the proving threads of a compute-unit prover are spread over the logical cores of
//! its physical core, and how they share the work of initializing a dataset.

use nonempty::NonEmpty;
use vstd::prelude::*;

use crate::errors::ThreadAllocationError;
use crate::types::LogicalCoreId;
use crate::types::PhysicalCoreId;

verus! {

/// `nonempty::NonEmpty`, a list with at least one item; what it holds is `nonempty_cores`.
#[verifier::external_type_specification]
#[verifier::external_body]
#[verifier::reject_recursive_types(T)]
pub struct ExNonEmpty<T>(NonEmpty<T>);

/// The logical cores held by a non-empty list, in order.
pub uninterp spec fn nonempty_cores(list: NonEmpty<LogicalCoreId>) -> Seq<LogicalCoreId>;

/// `NonEmpty::from_vec` of the `nonempty` crate: `None` for an empty vector, otherwise the list
/// whose head is the first element and whose tail is the rest, so its items are those of `v`.
#[verifier::external_body]
fn nonempty_from_vec(v: Vec<LogicalCoreId>) -> (r: Option<NonEmpty<LogicalCoreId>>)
    ensures
        r is None <==> v@.len() == 0,
        r matches Some(list) ==> nonempty_cores(list) == v@,
{
    NonEmpty::from_vec(v)
}

/// How many proving threads run on one physical core.
#[derive(Clone, Copy, Debug, PartialEq, Eq, Structural)]
pub enum ThreadsPerCoreAllocationPolicy {
    /// This many threads, whatever the number of logical cores.
    Exact { threads_per_physical_core: usize },
    /// One thread per logical core.
    Optimal,
}

/// A policy never asks for zero threads.
pub open spec fn policy_is_valid(policy: ThreadsPerCoreAllocationPolicy) -> bool {
    match policy {
        ThreadsPerCoreAllocationPolicy::Exact { threads_per_physical_core } => threads_per_physical_core > 0,
        ThreadsPerCoreAllocationPolicy::Optimal => true,
    }
}

/// The number of threads the policy asks for on a core with `logical_cores` logical cores.
pub open spec fn threads_count(policy: ThreadsPerCoreAllocationPolicy, logical_cores: nat) -> nat {
    match policy {
        ThreadsPerCoreAllocationPolicy::Exact { threads_per_physical_core } => threads_per_physical_core as nat,
        ThreadsPerCoreAllocationPolicy::Optimal => logical_cores,
    }
}

/// Round robin: thread `thread_id` goes to logical core `thread_id mod n`.
pub fn distribute(thread_id: usize, logical_cores: &Vec<LogicalCoreId>) -> (r: LogicalCoreId)
    requires
        logical_cores@.len() > 0,
    ensures
        r == logical_cores@[thread_id as int % logical_cores@.len() as int],
{
    logical_cores[thread_id % logical_cores.len()]
}

/// The logical core of every proving thread of physical core `core_id`, whose logical cores
/// are `logical_cores`: round robin over them, as many threads as the policy says.
pub fn create_allocate_strategy(
    policy: ThreadsPerCoreAllocationPolicy,
    core_id: PhysicalCoreId,
    logical_cores: &Vec<LogicalCoreId>,
) -> (r: Result<NonEmpty<LogicalCoreId>, ThreadAllocationError>)
    requires
        policy_is_valid(policy),
    ensures
        logical_cores@.len() == 0 <==> r is Err,
        r matches Err(e) ==> e == (ThreadAllocationError::LogicalCPUNotFound { core_id }),
        r matches Ok(list) ==> {
            &&& nonempty_cores(list).len() == threads_count(policy, logical_cores@.len())
            &&& forall|i: int|
                0 <= i < nonempty_cores(list).len() ==> #[trigger] nonempty_cores(list)[i]
                    == logical_cores@[i % logical_cores@.len() as int]
        },
{
    if logical_cores.len() == 0 {
        return Err(ThreadAllocationError::LogicalCPUNotFound { core_id });
    }
    let threads_count: usize = match policy {
        ThreadsPerCoreAllocationPolicy::Exact { threads_per_physical_core } => threads_per_physical_core,
        ThreadsPerCoreAllocationPolicy::Optimal => logical_cores.len(),
    };
    let mut strategy: Vec<LogicalCoreId> = Vec::new();
    let mut thread_id: usize = 0;
    while thread_id < threads_count
        invariant
            0 <= thread_id <= threads_count,
            logical_cores@.len() > 0,
            strategy@.len() == thread_id,
            forall|i: int|
                0 <= i < thread_id ==> #[trigger] strategy@[i] == logical_cores@[i
                    % logical_cores@.len() as int],
        decreases threads_count - thread_id,
    {
        strategy.push(distribute(thread_id, logical_cores));
        thread_id = thread_id + 1;
    }
    match nonempty_from_vec(strategy) {
        Some(list) => Ok(list),
        None => {
            // `threads_count` is positive
            Err(ThreadAllocationError::LogicalCPUNotFound { core_id })
        },
    }
}

/// The first dataset item that thread `thread_id` of `threads_number` initializes.
pub open spec fn chunk_start(dataset_size: nat, threads_number: nat, thread_id: nat) -> nat {
    (dataset_size * thread_id / threads_number) as nat
}

/// The part of the dataset that thread `thread_id` initializes: its first item and the number
/// of items. The parts of threads `0..threads_number` follow each other and cover the dataset.
pub fn dataset_chunk(dataset_size: u64, threads_number: u64, thread_id: u64) -> (r: (u64, u64))
    requires
        threads_number > 0,
        thread_id < u64::MAX,
        dataset_size * (thread_id + 1) <= u64::MAX,
    ensures
        r.0 == chunk_start(dataset_size as nat, threads_number as nat, thread_id as nat),
        r.0 + r.1 == chunk_start(
            dataset_size as nat,
            threads_number as nat,
            (thread_id + 1) as nat,
        ),
{
    proof {
        lemma_chunk_bounds(dataset_size as nat, threads_number as nat, thread_id as nat);
    }
    let start_item = (dataset_size * thread_id) / threads_number;
    let next_start_item = (dataset_size * (thread_id + 1)) / threads_number;
    let items_count = next_start_item - start_item;
    (start_item, items_count)
}

proof fn lemma_chunk_bounds(dataset_size: nat, threads_number: nat, thread_id: nat)
    requires
        threads_number > 0,
    ensures
        dataset_size * thread_id <= dataset_size * (thread_id + 1),
        chunk_start(dataset_size, threads_number, thread_id) <= chunk_start(
            dataset_size,
            threads_number,
            thread_id + 1,
        ),
{
    vstd::arithmetic::mul::lemma_mul_inequality(
        thread_id as int,
        (thread_id + 1) as int,
        dataset_size as int,
    );
    vstd::arithmetic::mul::lemma_mul_is_commutative(dataset_size as int, thread_id as int);
    vstd::arithmetic::mul::lemma_mul_is_commutative(dataset_size as int, (thread_id + 1) as int);
    vstd::arithmetic::div_mod::lemma_div_is_ordered(
        (dataset_size * thread_id) as int,
        (dataset_size * (thread_id + 1)) as int,
        threads_number as int,
    );
}

/// The parts of the dataset tile it: the first starts at item zero and the last ends at its
/// size.
pub proof fn lemma_chunks_cover_dataset(dataset_size: nat, threads_number: nat)
    requires
        threads_number > 0,
    ensures
        chunk_start(dataset_size, threads_number, 0) == 0,
        chunk_start(dataset_size, threads_number, threads_number) == dataset_size,
        forall|t: nat|
            t < threads_number ==> chunk_start(dataset_size, threads_number, t) <= #[trigger] chunk_start(
                dataset_size,
                threads_number,
                t + 1,
            ),
{
    assert(dataset_size * 0 == 0) by (nonlinear_arith);
    vstd::arithmetic::div_mod::lemma_div_multiples_vanish(
        dataset_size as int,
        threads_number as int,
    );
    vstd::arithmetic::mul::lemma_mul_is_commutative(dataset_size as int, threads_number as int);
    assert forall|t: nat| t < threads_number implies chunk_start(
        dataset_size,
        threads_number,
        t,
    ) <= #[trigger] chunk_start(dataset_size, threads_number, t + 1) by {
        lemma_chunk_bounds(dataset_size, threads_number, t);
    }
}

} // verus!
