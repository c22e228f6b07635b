//! What a proving thread reports about its work, and the clock it is measured with.

use std::time::Duration;
use std::time::Instant;
use vstd::prelude::*;

use crate::types::EpochParameters;
use crate::types::LogicalCoreId;

verus! {

/// `std::time::Instant`, carried through as an opaque value.
#[verifier::external_type_specification]
#[verifier::external_body]
pub struct ExInstant(Instant);

/// Whether instant `a` comes strictly before instant `b`.
pub uninterp spec fn instant_before(a: Instant, b: Instant) -> bool;

/// `a` moved back by `d`, if the clock can represent it.
pub uninterp spec fn instant_minus(a: Instant, d: Duration) -> Option<Instant>;

/// The duration of `secs` seconds.
pub uninterp spec fn duration_of_secs(secs: u64) -> Duration;

/// `a + b`, saturating at the largest duration, as `Duration::saturating_add` computes it.
pub uninterp spec fn duration_saturating_sum(a: Duration, b: Duration) -> Duration;

/// `a + b`, or `None` where the sum does not fit in a duration, as `Duration::checked_add`
/// computes it.
pub uninterp spec fn duration_checked_sum(a: Duration, b: Duration) -> Option<Duration>;

/// `Duration::saturating_add`: the contract claims the result is
/// `duration_saturating_sum(a, b)`, which depends on `a` and `b` alone.
#[verifier::external_body]
pub(crate) fn duration_saturating_add(a: Duration, b: Duration) -> (r: Duration)
    ensures
        r == duration_saturating_sum(a, b),
{
    a.saturating_add(b)
}

/// `Duration::checked_add`: the contract claims the result is `duration_checked_sum(a, b)`,
/// which depends on `a` and `b` alone.
#[verifier::external_body]
pub(crate) fn duration_checked_add(a: Duration, b: Duration) -> (r: Option<Duration>)
    ensures
        r == duration_checked_sum(a, b),
{
    a.checked_add(b)
}

/// `Instant::now`: the current time. Nothing is stated of the result, which depends on the
/// clock.
#[verifier::external_body]
pub(crate) fn now() -> Instant {
    Instant::now()
}

/// `<Instant as PartialOrd>::lt`: the contract claims the result is `instant_before(a, b)`, the
/// order of the two instants, which depends on them alone. Since `Instant` is `Ord` (a total
/// order), it also claims that where `a` is not before `b`, no instant that `a` is not before is
/// before `b` either.
#[verifier::external_body]
pub(crate) fn instant_lt(a: &Instant, b: &Instant) -> (r: bool)
    ensures
        r == instant_before(*a, *b),
        !r ==> (forall|x: Instant| !instant_before(x, *a) ==> !#[trigger] instant_before(x, *b)),
{
    *a < *b
}

/// `Instant::checked_sub`: the contract claims the result is `instant_minus(a, d)`, `a` moved
/// back by `d` or `None` where that instant cannot be represented, which depends on `a` and `d`
/// alone.
#[verifier::external_body]
pub(crate) fn instant_checked_sub(a: Instant, d: Duration) -> (r: Option<Instant>)
    ensures
        r == instant_minus(a, d),
{
    a.checked_sub(d)
}

/// `Duration::from_secs`: the contract claims the result is `duration_of_secs(secs)`, the
/// duration of `secs` whole seconds.
#[verifier::external_body]
pub(crate) fn duration_from_secs(secs: u64) -> (r: Duration)
    ensures
        r == duration_of_secs(secs),
{
    Duration::from_secs(secs)
}

/// What a proving thread spent its time on.
#[derive(Clone, Copy, Debug)]
pub enum HashrateRecordType {
    CacheCreation,
    DatasetInitialization { start_item: u64, items_count: u64 },
    CheckedHashes { count: usize },
}

/// One report of a proving thread: how long it took, on which core, in which epoch.
#[derive(Clone, Copy, Debug)]
pub struct ThreadHashrateRecord {
    pub epoch: EpochParameters,
    pub core_id: LogicalCoreId,
    pub duration: Duration,
    pub variant: HashrateRecordType,
}

impl ThreadHashrateRecord {
    pub fn cache_creation(epoch: EpochParameters, core_id: LogicalCoreId, duration: Duration) -> (r:
        Self)
        ensures
            r == (ThreadHashrateRecord {
                epoch,
                core_id,
                duration,
                variant: HashrateRecordType::CacheCreation,
            }),
    {
        Self { epoch, core_id, duration, variant: HashrateRecordType::CacheCreation }
    }

    pub fn dataset_initialization(
        epoch: EpochParameters,
        core_id: LogicalCoreId,
        duration: Duration,
        start_item: u64,
        items_count: u64,
    ) -> (r: Self)
        ensures
            r == (ThreadHashrateRecord {
                epoch,
                core_id,
                duration,
                variant: HashrateRecordType::DatasetInitialization { start_item, items_count },
            }),
    {
        Self {
            epoch,
            core_id,
            duration,
            variant: HashrateRecordType::DatasetInitialization { start_item, items_count },
        }
    }

    pub fn checked_hashes(
        epoch: EpochParameters,
        core_id: LogicalCoreId,
        duration: Duration,
        hashes_count: usize,
    ) -> (r: Self)
        ensures
            r == (ThreadHashrateRecord {
                epoch,
                core_id,
                duration,
                variant: HashrateRecordType::CheckedHashes { count: hashes_count },
            }),
    {
        Self {
            epoch,
            core_id,
            duration,
            variant: HashrateRecordType::CheckedHashes { count: hashes_count },
        }
    }
}

/// A report of a compute-unit prover thread, without the epoch.
#[derive(Clone, Copy, Debug)]
pub enum HashrateCUEntry {
    CacheCreation { core_id: LogicalCoreId, duration: Duration },
    DatasetAllocation { core_id: LogicalCoreId, duration: Duration },
    DatasetInitialization {
        core_id: LogicalCoreId,
        duration: Duration,
        start_item: u64,
        items_count: u64,
    },
    HashesChecked { core_id: LogicalCoreId, hashes_count: usize, duration: Duration },
}

impl HashrateCUEntry {
    pub fn cache_creation(core_id: LogicalCoreId, duration: Duration) -> (r: Self)
        ensures
            r == (HashrateCUEntry::CacheCreation { core_id, duration }),
    {
        HashrateCUEntry::CacheCreation { core_id, duration }
    }

    pub fn dataset_allocation(core_id: LogicalCoreId, duration: Duration) -> (r: Self)
        ensures
            r == (HashrateCUEntry::DatasetAllocation { core_id, duration }),
    {
        HashrateCUEntry::DatasetAllocation { core_id, duration }
    }

    pub fn dataset_initialization(
        core_id: LogicalCoreId,
        duration: Duration,
        start_item: u64,
        items_count: u64,
    ) -> (r: Self)
        ensures
            r == (HashrateCUEntry::DatasetInitialization {
                core_id,
                duration,
                start_item,
                items_count,
            }),
    {
        HashrateCUEntry::DatasetInitialization { core_id, duration, start_item, items_count }
    }

    pub fn hashes_checked(core_id: LogicalCoreId, hashes_count: usize, duration: Duration) -> (r:
        Self)
        ensures
            r == (HashrateCUEntry::HashesChecked { core_id, hashes_count, duration }),
    {
        HashrateCUEntry::HashesChecked { core_id, hashes_count, duration }
    }
}

} // verus!
