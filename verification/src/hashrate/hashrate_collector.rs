//! Per-core hashrate counters that keep every dataset initialization of the epoch.

use std::collections::HashMap;
use std::time::Duration;
use std::time::Instant;
use vstd::prelude::*;

use super::collector::ParameterStatus;
use super::record::now;
use super::record::HashrateRecordType;
use super::record::ThreadHashrateRecord;
use crate::types::EpochParameters;
use crate::types::LogicalCoreId;

verus! {

broadcast use vstd::std_specs::hash::group_hash_axioms;

/// Whether the collector counts an epoch, and since when.
#[derive(Clone, Copy, Debug)]
pub enum CollectorStatus {
    Started { started_time: Instant, epoch: EpochParameters },
    JustCreated,
}

/// The counters of one core.
#[derive(Debug)]
pub struct CUHashrateRaw {
    pub cache_creation: ParameterStatus<Duration>,
    pub dataset_initialization: Vec<Duration>,
    pub pow_duration: ParameterStatus<Duration>,
    pub hashes_checked: u64,
}

/// The counters of one core, as values.
pub struct CUHashrateRawView {
    pub cache_creation: ParameterStatus<Duration>,
    pub dataset_initialization: Seq<Duration>,
    pub pow_duration: ParameterStatus<Duration>,
    pub hashes_checked: u64,
}

impl View for CUHashrateRaw {
    type V = CUHashrateRawView;

    open spec fn view(&self) -> CUHashrateRawView {
        CUHashrateRawView {
            cache_creation: self.cache_creation,
            dataset_initialization: self.dataset_initialization@,
            pow_duration: self.pow_duration,
            hashes_checked: self.hashes_checked,
        }
    }
}

/// The counters of a core whose first report of the epoch is `record`.
pub open spec fn single_entry(record: ThreadHashrateRecord) -> CUHashrateRawView {
    match record.variant {
        HashrateRecordType::CacheCreation => CUHashrateRawView {
            cache_creation: ParameterStatus::Measured(record.duration),
            dataset_initialization: Seq::empty(),
            pow_duration: ParameterStatus::NotMeasured,
            hashes_checked: 0,
        },
        HashrateRecordType::DatasetInitialization { .. } => CUHashrateRawView {
            cache_creation: ParameterStatus::NotMeasured,
            dataset_initialization: seq![record.duration],
            pow_duration: ParameterStatus::NotMeasured,
            hashes_checked: 0,
        },
        HashrateRecordType::CheckedHashes { count } => CUHashrateRawView {
            cache_creation: ParameterStatus::NotMeasured,
            dataset_initialization: seq![record.duration],
            pow_duration: ParameterStatus::Measured(record.duration),
            hashes_checked: count as u64,
        },
    }
}

/// The counters after a further report.
pub open spec fn added_entry(raw: CUHashrateRawView, record: ThreadHashrateRecord) -> CUHashrateRawView {
    match record.variant {
        HashrateRecordType::CacheCreation => CUHashrateRawView {
            cache_creation: ParameterStatus::Measured(record.duration),
            ..raw
        },
        HashrateRecordType::DatasetInitialization { .. } => CUHashrateRawView {
            dataset_initialization: raw.dataset_initialization.push(record.duration),
            ..raw
        },
        HashrateRecordType::CheckedHashes { count } => CUHashrateRawView {
            hashes_checked: (raw.hashes_checked + count) as u64,
            ..raw
        },
    }
}

/// The first report of a core files its duration under what it measured: a cache creation as
/// the cache creation time with no dataset initialization yet, a dataset initialization as the
/// one dataset initialization, checked hashes as the proving time with their count. Nothing else
/// is measured yet.
pub proof fn lemma_single_entry_files_the_duration(record: ThreadHashrateRecord)
    ensures
        record.variant is CacheCreation ==> {
            &&& single_entry(record).cache_creation == ParameterStatus::Measured(record.duration)
            &&& single_entry(record).dataset_initialization.len() == 0
            &&& single_entry(record).pow_duration is NotMeasured
            &&& single_entry(record).hashes_checked == 0
        },
        record.variant is DatasetInitialization ==> {
            &&& single_entry(record).cache_creation is NotMeasured
            &&& single_entry(record).dataset_initialization == seq![record.duration]
            &&& single_entry(record).pow_duration is NotMeasured
            &&& single_entry(record).hashes_checked == 0
        },
        record.variant matches HashrateRecordType::CheckedHashes { count } ==> {
            &&& single_entry(record).cache_creation is NotMeasured
            &&& single_entry(record).pow_duration == ParameterStatus::Measured(record.duration)
            &&& single_entry(record).hashes_checked == count
        },
{
}

/// A further report changes only what it measures: a cache creation replaces the cache creation
/// time, whatever was there; a dataset initialization is appended to the dataset initializations;
/// checked hashes add to the count, which never goes down. Nothing else changes.
pub proof fn lemma_added_entry_changes_only_what_is_reported(
    raw: CUHashrateRawView,
    record: ThreadHashrateRecord,
)
    requires
        raw.hashes_checked + record_hashes(record) <= u64::MAX,
    ensures
        added_entry(raw, record).hashes_checked == raw.hashes_checked + record_hashes(record),
        added_entry(raw, record).hashes_checked >= raw.hashes_checked,
        added_entry(raw, record).pow_duration == raw.pow_duration,
        record.variant is CacheCreation ==> {
            &&& added_entry(raw, record).cache_creation == ParameterStatus::Measured(
                record.duration,
            )
            &&& added_entry(raw, record).dataset_initialization == raw.dataset_initialization
        },
        record.variant is DatasetInitialization ==> {
            &&& added_entry(raw, record).cache_creation == raw.cache_creation
            &&& added_entry(raw, record).dataset_initialization.len()
                == raw.dataset_initialization.len() + 1
            &&& added_entry(raw, record).dataset_initialization.last() == record.duration
            &&& added_entry(raw, record).dataset_initialization.drop_last()
                == raw.dataset_initialization
        },
        record.variant is CheckedHashes ==> {
            &&& added_entry(raw, record).cache_creation == raw.cache_creation
            &&& added_entry(raw, record).dataset_initialization == raw.dataset_initialization
        },
{
    if record.variant is DatasetInitialization {
        assert(raw.dataset_initialization.push(record.duration).drop_last()
            =~= raw.dataset_initialization);
    }
}

/// The number of hashes a report adds.
pub open spec fn record_hashes(record: ThreadHashrateRecord) -> nat {
    match record.variant {
        HashrateRecordType::CheckedHashes { count } => count as nat,
        _ => 0,
    }
}

impl CUHashrateRaw {
    pub fn from_single_entry(entry: ThreadHashrateRecord) -> (r: Self)
        ensures
            r@ == single_entry(entry),
    {
        match entry.variant {
            HashrateRecordType::CacheCreation => Self::from_cache_creation(entry.duration),
            HashrateRecordType::DatasetInitialization { .. } => {
                Self::from_dataset_initialization(entry.duration)
            },
            HashrateRecordType::CheckedHashes { count: hashes_count } => {
                Self::from_cc_job(entry.duration, hashes_count as u64)
            },
        }
    }

    pub fn add_entry(&mut self, entry: ThreadHashrateRecord)
        requires
            old(self).hashes_checked + record_hashes(entry) <= u64::MAX,
        ensures
            final(self)@ == added_entry(old(self)@, entry),
    {
        match entry.variant {
            HashrateRecordType::CacheCreation => {
                self.cache_creation = ParameterStatus::Measured(entry.duration)
            },
            HashrateRecordType::DatasetInitialization { .. } => {
                self.dataset_initialization.push(entry.duration)
            },
            HashrateRecordType::CheckedHashes { count: hashes_count } => {
                self.hashes_checked = self.hashes_checked + hashes_count as u64
            },
        }
    }

    pub fn from_cache_creation(duration: Duration) -> (r: Self)
        ensures
            r.cache_creation == ParameterStatus::Measured(duration),
            r.dataset_initialization@ == Seq::<Duration>::empty(),
            r.pow_duration is NotMeasured,
            r.hashes_checked == 0,
    {
        CUHashrateRaw {
            cache_creation: ParameterStatus::Measured(duration),
            dataset_initialization: Vec::new(),
            pow_duration: ParameterStatus::NotMeasured,
            hashes_checked: 0,
        }
    }

    pub fn from_dataset_initialization(duration: Duration) -> (r: Self)
        ensures
            r.cache_creation is NotMeasured,
            r.dataset_initialization@ == seq![duration],
            r.pow_duration is NotMeasured,
            r.hashes_checked == 0,
    {
        let mut dataset_initialization: Vec<Duration> = Vec::new();
        dataset_initialization.push(duration);
        CUHashrateRaw {
            cache_creation: ParameterStatus::NotMeasured,
            dataset_initialization,
            pow_duration: ParameterStatus::NotMeasured,
            hashes_checked: 0,
        }
    }

    pub fn from_cc_job(duration: Duration, hashes_checked: u64) -> (r: Self)
        ensures
            r.cache_creation is NotMeasured,
            r.dataset_initialization@ == seq![duration],
            r.pow_duration == ParameterStatus::Measured(duration),
            r.hashes_checked == hashes_checked,
    {
        let mut dataset_initialization: Vec<Duration> = Vec::new();
        dataset_initialization.push(duration);
        CUHashrateRaw {
            cache_creation: ParameterStatus::NotMeasured,
            dataset_initialization,
            pow_duration: ParameterStatus::Measured(duration),
            hashes_checked,
        }
    }
}

/// The counters of an epoch that has ended: how the collector stood, and the counters.
#[derive(Debug)]
pub struct EpochStatistics {
    pub status: CollectorStatus,
    pub entries: HashMap<LogicalCoreId, CUHashrateRaw>,
}

/// Collects the reports of the proving threads, epoch by epoch.
#[derive(Debug)]
pub struct HashrateCollector {
    status: CollectorStatus,
    entries: HashMap<LogicalCoreId, CUHashrateRaw>,
}

impl HashrateCollector {
    pub closed spec fn spec_status(&self) -> CollectorStatus {
        self.status
    }

    pub closed spec fn spec_entries(&self) -> Map<LogicalCoreId, CUHashrateRaw> {
        self.entries@
    }

    pub fn new() -> (r: Self)
        ensures
            r.spec_status() is JustCreated,
            r.spec_entries() == Map::<LogicalCoreId, CUHashrateRaw>::empty(),
    {
        HashrateCollector { status: CollectorStatus::JustCreated, entries: HashMap::new() }
    }

    pub fn status(&self) -> (r: CollectorStatus)
        ensures
            r == self.spec_status(),
    {
        self.status
    }

    pub fn entries(&self) -> (r: &HashMap<LogicalCoreId, CUHashrateRaw>)
        ensures
            r@ == self.spec_entries(),
    {
        &self.entries
    }

    /// Accounts a report; a report of another epoch (or the first one) ends the counted epoch,
    /// whose counters are returned, and starts counting its own.
    pub fn count_entry(&mut self, hashrate_record: ThreadHashrateRecord) -> (r: Option<
        EpochStatistics,
    >)
        requires
            old(self).spec_entries().contains_key(hashrate_record.core_id) ==> old(
                self,
            ).spec_entries()[hashrate_record.core_id].hashes_checked + record_hashes(
                hashrate_record,
            ) <= u64::MAX,
        ensures
            ({
                let changed = match old(self).spec_status() {
                    CollectorStatus::JustCreated => true,
                    CollectorStatus::Started { epoch, .. } => epoch != hashrate_record.epoch,
                };
                &&& changed <==> r is Some
                &&& r matches Some(stats) ==> stats.status == old(self).spec_status()
                    && stats.entries@ == old(self).spec_entries()
                &&& !changed ==> final(self).spec_status() == old(self).spec_status()
                &&& final(self).spec_status() matches CollectorStatus::Started { epoch, .. }
                    && epoch == hashrate_record.epoch
                &&& final(self).spec_entries().dom() == (if changed {
                    Set::<LogicalCoreId>::empty()
                } else {
                    old(self).spec_entries().dom()
                }).insert(hashrate_record.core_id)
                &&& final(self).spec_entries()[hashrate_record.core_id]@ == (if !changed
                    && old(self).spec_entries().contains_key(hashrate_record.core_id) {
                    added_entry(
                        old(self).spec_entries()[hashrate_record.core_id]@,
                        hashrate_record,
                    )
                } else {
                    single_entry(hashrate_record)
                })
                &&& forall|c: LogicalCoreId|
                    !changed && c != hashrate_record.core_id && #[trigger] old(
                        self,
                    ).spec_entries().contains_key(c) ==> final(self).spec_entries()[c] == old(
                        self,
                    ).spec_entries()[c]
            }),
    {
        let status_changed = match self.status {
            CollectorStatus::JustCreated => true,
            CollectorStatus::Started { epoch, .. } => epoch != hashrate_record.epoch,
        };
        let result = if status_changed {
            let mut entries: HashMap<LogicalCoreId, CUHashrateRaw> = HashMap::new();
            std::mem::swap(&mut entries, &mut self.entries);
            let statistics = EpochStatistics { status: self.status, entries };
            self.new_epoch(hashrate_record.epoch);
            Some(statistics)
        } else {
            None
        };
        let ghost before = self.entries@;
        match self.entries.remove(&hashrate_record.core_id) {
            Some(mut entry) => {
                entry.add_entry(hashrate_record);
                self.entries.insert(hashrate_record.core_id, entry);
            },
            None => {
                let entry = CUHashrateRaw::from_single_entry(hashrate_record);
                self.entries.insert(hashrate_record.core_id, entry);
            },
        }
        proof {
            assert(self.entries@.dom() =~= before.dom().insert(hashrate_record.core_id));
        }
        result
    }

    fn new_epoch(&mut self, epoch: EpochParameters)
        ensures
            final(self).spec_status() matches CollectorStatus::Started { epoch: e, .. } && e == epoch,
            final(self).spec_entries() == Map::<LogicalCoreId, CUHashrateRaw>::empty(),
    {
        self.status = CollectorStatus::Started { started_time: now(), epoch };
        self.entries.clear();
    }
}

} // verus!
