//! Cumulative hashrate of the current epoch, per logical core.

use std::collections::HashMap;
use std::time::Duration;
use std::time::Instant;
use vstd::prelude::*;

use super::record::duration_from_secs;
use super::record::duration_of_secs;
use super::record::duration_saturating_add;
use super::record::duration_saturating_sum;
use super::record::now;
use super::record::HashrateRecordType;
use super::record::ThreadHashrateRecord;
use crate::types::EpochParameters;
use crate::types::LogicalCoreId;

verus! {

broadcast use vstd::std_specs::hash::group_hash_axioms;

/// A measurement that may not have been made yet.
#[derive(Clone, Copy, Debug)]
pub enum ParameterStatus<T> {
    Measured(T),
    NotMeasured,
}

impl<T> ParameterStatus<T> {
    /// Applies `f` to the measured value.
    pub fn map<U, F>(self, f: F) -> (r: ParameterStatus<U>) where F: FnOnce(T) -> U
        requires
            self matches ParameterStatus::Measured(value) ==> f.requires((value,)),
        ensures
            self is NotMeasured ==> r is NotMeasured,
            self matches ParameterStatus::Measured(value) ==> r matches ParameterStatus::Measured(
                u,
            ) && f.ensures((value,), u),
            forall|g: spec_fn(T) -> U|
                (forall|x: T, u: U| #[trigger] f.ensures((x,), u) ==> u == g(x)) ==> r
                    == #[trigger] map_spec(self, g),
    {
        match self {
            ParameterStatus::Measured(value) => ParameterStatus::Measured(f(value)),
            ParameterStatus::NotMeasured => ParameterStatus::NotMeasured,
        }
    }
}

/// `map` with a function whose result on `x` is `g(x)`.
pub open spec fn map_spec<T, U>(s: ParameterStatus<T>, g: spec_fn(T) -> U) -> ParameterStatus<U> {
    match s {
        ParameterStatus::Measured(value) => ParameterStatus::Measured(g(value)),
        ParameterStatus::NotMeasured => ParameterStatus::NotMeasured,
    }
}

/// Mapping the identity changes nothing.
pub proof fn lemma_map_identity<T>(s: ParameterStatus<T>)
    ensures
        map_spec(s, |x: T| x) == s,
{
}

/// Mapping `f` and then `g` is mapping their composition.
pub proof fn lemma_map_composition<T, U, V>(
    s: ParameterStatus<T>,
    f: spec_fn(T) -> U,
    g: spec_fn(U) -> V,
)
    ensures
        map_spec(map_spec(s, f), g) == map_spec(s, |x: T| g(f(x))),
{
}

/// Mapping keeps a measurement measured and a missing one missing.
pub proof fn lemma_map_keeps_measured<T, U>(s: ParameterStatus<T>, f: spec_fn(T) -> U)
    ensures
        (map_spec(s, f) is Measured) == (s is Measured),
{
}

/// What happened to the epoch when a report arrived.
#[derive(Debug)]
pub enum EpochObservation {
    /// Another epoch began; the counters of the previous one, and when it began.
    EpochChanged {
        prev_epoch_entries: HashMap<LogicalCoreId, ThreadHashrateRaw>,
        prev_started_time: Instant,
    },
    EpochNotChanged,
    /// The first report arrived.
    StartedWorking,
}

/// Whether the collector counts an epoch, and since when.
#[derive(Clone, Copy, Debug)]
pub enum CollectorStatus {
    Busy { started_time: Instant, epoch: EpochParameters },
    Idle,
}

/// The raw counters of one logical core in the current epoch.
#[derive(Clone, Copy, Debug)]
pub struct ThreadHashrateRaw {
    pub cache_creation: ParameterStatus<Duration>,
    pub dataset_initialization: ParameterStatus<Duration>,
    pub cc_job_duration: ParameterStatus<Duration>,
    pub checked_hashes_count: u64,
    pub found_proofs_count: u64,
}

/// The time spent on jobs so far, zero before the first one.
pub open spec fn job_time_so_far(cc_job_duration: ParameterStatus<Duration>) -> Duration {
    match cc_job_duration {
        ParameterStatus::Measured(d) => d,
        ParameterStatus::NotMeasured => duration_of_secs(0),
    }
}

/// The counters after a report: the last cache creation and dataset initialization are kept;
/// checked hashes add up, and so does the time spent on jobs (the pure proving time that the
/// hashrate without cache and dataset work is computed from).
pub open spec fn accounted(raw: ThreadHashrateRaw, record: ThreadHashrateRecord) -> ThreadHashrateRaw {
    match record.variant {
        HashrateRecordType::CacheCreation => ThreadHashrateRaw {
            cache_creation: ParameterStatus::Measured(record.duration),
            ..raw
        },
        HashrateRecordType::DatasetInitialization { .. } => ThreadHashrateRaw {
            dataset_initialization: ParameterStatus::Measured(record.duration),
            ..raw
        },
        HashrateRecordType::CheckedHashes { count } => ThreadHashrateRaw {
            checked_hashes_count: (raw.checked_hashes_count + count) as u64,
            cc_job_duration: ParameterStatus::Measured(
                duration_saturating_sum(job_time_so_far(raw.cc_job_duration), record.duration),
            ),
            ..raw
        },
    }
}

/// A report changes only what it measures. A cache creation sets the cache creation time and a
/// dataset initialization the dataset initialization time; neither touches the checked hashes or
/// the job time. Checked hashes add to the count and to the job time and touch neither
/// preparation time. The count of checked hashes never goes down, and the proofs found are left
/// alone.
pub proof fn lemma_accounted_changes_only_what_is_reported(
    raw: ThreadHashrateRaw,
    record: ThreadHashrateRecord,
)
    requires
        raw.checked_hashes_count + added_hashes(record) <= u64::MAX,
    ensures
        accounted(raw, record).found_proofs_count == raw.found_proofs_count,
        accounted(raw, record).checked_hashes_count == raw.checked_hashes_count + added_hashes(
            record,
        ),
        accounted(raw, record).checked_hashes_count >= raw.checked_hashes_count,
        record.variant is CacheCreation ==> {
            &&& accounted(raw, record).cache_creation == ParameterStatus::Measured(record.duration)
            &&& accounted(raw, record).dataset_initialization == raw.dataset_initialization
            &&& accounted(raw, record).cc_job_duration == raw.cc_job_duration
            &&& accounted(raw, record).checked_hashes_count == raw.checked_hashes_count
        },
        record.variant is DatasetInitialization ==> {
            &&& accounted(raw, record).dataset_initialization == ParameterStatus::Measured(
                record.duration,
            )
            &&& accounted(raw, record).cache_creation == raw.cache_creation
            &&& accounted(raw, record).cc_job_duration == raw.cc_job_duration
            &&& accounted(raw, record).checked_hashes_count == raw.checked_hashes_count
        },
        record.variant is CheckedHashes ==> {
            &&& accounted(raw, record).cache_creation == raw.cache_creation
            &&& accounted(raw, record).dataset_initialization == raw.dataset_initialization
            &&& accounted(raw, record).cc_job_duration == ParameterStatus::Measured(
                duration_saturating_sum(job_time_so_far(raw.cc_job_duration), record.duration),
            )
        },
{
}

/// Counters of a core that has not reported yet in this epoch.
pub open spec fn fresh_raw() -> ThreadHashrateRaw {
    ThreadHashrateRaw {
        cache_creation: ParameterStatus::NotMeasured,
        dataset_initialization: ParameterStatus::NotMeasured,
        cc_job_duration: ParameterStatus::NotMeasured,
        checked_hashes_count: 0,
        found_proofs_count: 0,
    }
}

/// The number of hashes a report adds.
pub open spec fn added_hashes(record: ThreadHashrateRecord) -> nat {
    match record.variant {
        HashrateRecordType::CheckedHashes { count } => count as nat,
        _ => 0,
    }
}

impl ThreadHashrateRaw {
    pub fn new() -> (r: Self)
        ensures
            r == fresh_raw(),
    {
        ThreadHashrateRaw {
            cache_creation: ParameterStatus::NotMeasured,
            dataset_initialization: ParameterStatus::NotMeasured,
            cc_job_duration: ParameterStatus::NotMeasured,
            checked_hashes_count: 0,
            found_proofs_count: 0,
        }
    }

    pub fn account_record(&mut self, new_entry: ThreadHashrateRecord)
        requires
            old(self).checked_hashes_count + added_hashes(new_entry) <= u64::MAX,
        ensures
            *final(self) == accounted(*old(self), new_entry),
    {
        match new_entry.variant {
            HashrateRecordType::CacheCreation => {
                self.cache_creation = ParameterStatus::Measured(new_entry.duration)
            },
            HashrateRecordType::DatasetInitialization { .. } => {
                self.dataset_initialization = ParameterStatus::Measured(new_entry.duration)
            },
            HashrateRecordType::CheckedHashes { count: hashes_count } => {
                let so_far = match self.cc_job_duration {
                    ParameterStatus::Measured(d) => d,
                    ParameterStatus::NotMeasured => duration_from_secs(0),
                };
                self.cc_job_duration = ParameterStatus::Measured(
                    duration_saturating_add(so_far, new_entry.duration),
                );
                self.checked_hashes_count = self.checked_hashes_count + hashes_count as u64;
            },
        }
    }

    pub fn account_proof_found(&mut self)
        requires
            old(self).found_proofs_count < u64::MAX,
        ensures
            *final(self) == (ThreadHashrateRaw {
                found_proofs_count: (old(self).found_proofs_count + 1) as u64,
                ..*old(self)
            }),
    {
        self.found_proofs_count = self.found_proofs_count + 1;
    }
}

/// Collects the hashrate reports of the proving threads of the current epoch.
#[derive(Debug)]
pub struct HashrateCollector {
    status: CollectorStatus,
    entries: HashMap<LogicalCoreId, ThreadHashrateRaw>,
}

impl HashrateCollector {
    pub closed spec fn spec_status(&self) -> CollectorStatus {
        self.status
    }

    pub closed spec fn spec_entries(&self) -> Map<LogicalCoreId, ThreadHashrateRaw> {
        self.entries@
    }

    pub fn new() -> (r: Self)
        ensures
            r.spec_status() is Idle,
            r.spec_entries() == Map::<LogicalCoreId, ThreadHashrateRaw>::empty(),
    {
        HashrateCollector { status: CollectorStatus::Idle, entries: HashMap::new() }
    }

    pub fn status(&self) -> (r: CollectorStatus)
        ensures
            r == self.spec_status(),
    {
        self.status
    }

    pub fn entries(&self) -> (r: &HashMap<LogicalCoreId, ThreadHashrateRaw>)
        ensures
            r@ == self.spec_entries(),
    {
        &self.entries
    }

    /// Accounts a report. A report of another epoch than the counted one (or the first report)
    /// starts counting that epoch from scratch; the counters of the previous epoch are returned.
    pub fn account_record(&mut self, hashrate_record: ThreadHashrateRecord) -> (r: EpochObservation)
        requires
            old(self).spec_status() matches CollectorStatus::Busy { epoch, .. } && epoch
                == hashrate_record.epoch && old(self).spec_entries().contains_key(
                hashrate_record.core_id,
            ) ==> old(self).spec_entries()[hashrate_record.core_id].checked_hashes_count
                + added_hashes(hashrate_record) <= u64::MAX,
        ensures
            final(self).spec_status() matches CollectorStatus::Busy { epoch, .. } && epoch
                == hashrate_record.epoch,
            match old(self).spec_status() {
                CollectorStatus::Idle => {
                    &&& r is StartedWorking
                    &&& final(self).spec_entries() == Map::<
                        LogicalCoreId,
                        ThreadHashrateRaw,
                    >::empty().insert(
                        hashrate_record.core_id,
                        accounted(fresh_raw(), hashrate_record),
                    )
                },
                CollectorStatus::Busy { started_time, epoch } => {
                    if epoch == hashrate_record.epoch {
                        &&& r is EpochNotChanged
                        &&& final(self).spec_status() == old(self).spec_status()
                        &&& final(self).spec_entries() == old(self).spec_entries().insert(
                            hashrate_record.core_id,
                            accounted(
                                if old(self).spec_entries().contains_key(hashrate_record.core_id) {
                                    old(self).spec_entries()[hashrate_record.core_id]
                                } else {
                                    fresh_raw()
                                },
                                hashrate_record,
                            ),
                        )
                    } else {
                        &&& r matches EpochObservation::EpochChanged {
                            prev_epoch_entries,
                            prev_started_time,
                        } && prev_epoch_entries@ == old(self).spec_entries() && prev_started_time
                            == started_time
                        &&& final(self).spec_entries() == Map::<
                            LogicalCoreId,
                            ThreadHashrateRaw,
                        >::empty().insert(
                            hashrate_record.core_id,
                            accounted(fresh_raw(), hashrate_record),
                        )
                    }
                },
            },
    {
        let result = self.observe_epoch(hashrate_record.epoch);
        let mut raw = match self.entries.remove(&hashrate_record.core_id) {
            Some(raw) => raw,
            None => ThreadHashrateRaw::new(),
        };
        raw.account_record(hashrate_record);
        self.entries.insert(hashrate_record.core_id, raw);
        proof {
            if !(old(self).status matches CollectorStatus::Busy { epoch, .. } && epoch
                == hashrate_record.epoch) {
                assert(self.entries@ =~= Map::<LogicalCoreId, ThreadHashrateRaw>::empty().insert(
                    hashrate_record.core_id,
                    accounted(fresh_raw(), hashrate_record),
                ));
            } else {
                assert(self.entries@ =~= old(self).entries@.insert(
                    hashrate_record.core_id,
                    accounted(
                        if old(self).entries@.contains_key(hashrate_record.core_id) {
                            old(self).entries@[hashrate_record.core_id]
                        } else {
                            fresh_raw()
                        },
                        hashrate_record,
                    ),
                ));
            }
        }
        result
    }

    /// Counts a proof found on `core_id`.
    pub fn proof_found(&mut self, core_id: LogicalCoreId)
        requires
            old(self).spec_entries().contains_key(core_id) ==> old(
                self,
            ).spec_entries()[core_id].found_proofs_count < u64::MAX,
        ensures
            final(self).spec_status() == old(self).spec_status(),
            final(self).spec_entries() == old(self).spec_entries().insert(
                core_id,
                ({
                    let raw = if old(self).spec_entries().contains_key(core_id) {
                        old(self).spec_entries()[core_id]
                    } else {
                        fresh_raw()
                    };
                    ThreadHashrateRaw { found_proofs_count: (raw.found_proofs_count + 1) as u64, ..raw }
                }),
            ),
    {
        let mut raw = match self.entries.remove(&core_id) {
            Some(raw) => raw,
            None => ThreadHashrateRaw::new(),
        };
        raw.account_proof_found();
        self.entries.insert(core_id, raw);
        proof {
            assert(self.entries@ =~= old(self).entries@.insert(core_id, raw));
        }
    }

    fn observe_epoch(&mut self, new_epoch: EpochParameters) -> (r: EpochObservation)
        ensures
            final(self).spec_status() matches CollectorStatus::Busy { epoch, .. } && epoch
                == new_epoch,
            match old(self).spec_status() {
                CollectorStatus::Idle => {
                    &&& r is StartedWorking
                    &&& final(self).spec_entries() == Map::<LogicalCoreId, ThreadHashrateRaw>::empty()
                },
                CollectorStatus::Busy { started_time, epoch } => {
                    if epoch == new_epoch {
                        &&& r is EpochNotChanged
                        &&& *final(self) == *old(self)
                    } else {
                        &&& r matches EpochObservation::EpochChanged {
                            prev_epoch_entries,
                            prev_started_time,
                        } && prev_epoch_entries@ == old(self).spec_entries() && prev_started_time
                            == started_time
                        &&& final(self).spec_entries() == Map::<LogicalCoreId, ThreadHashrateRaw>::empty()
                    }
                },
            },
    {
        match self.status {
            CollectorStatus::Idle => {
                self.handler_new_epoch(new_epoch);
                EpochObservation::StartedWorking
            },
            CollectorStatus::Busy { started_time, epoch } => {
                if epoch == new_epoch {
                    return EpochObservation::EpochNotChanged;
                }
                let mut prev_epoch_entries: HashMap<LogicalCoreId, ThreadHashrateRaw> =
                    HashMap::new();
                std::mem::swap(&mut prev_epoch_entries, &mut self.entries);
                self.handler_new_epoch(new_epoch);
                EpochObservation::EpochChanged { prev_epoch_entries, prev_started_time: started_time }
            },
        }
    }

    fn handler_new_epoch(&mut self, epoch: EpochParameters)
        ensures
            final(self).spec_status() matches CollectorStatus::Busy { epoch: e, .. } && e == epoch,
            final(self).spec_entries() == Map::<LogicalCoreId, ThreadHashrateRaw>::empty(),
    {
        self.status = CollectorStatus::Busy { started_time: now(), epoch };
        self.entries.clear();
    }
}

} // verus!
