//! Hashrate over the last 10, 60 and 900 seconds, for a look at the prover while it runs.

use std::collections::HashMap;
use std::collections::VecDeque;
use std::time::Duration;
use std::time::Instant;
use vstd::prelude::*;

use super::record::duration_checked_add;
use super::record::duration_checked_sum;
use super::record::duration_from_secs;
use super::record::duration_of_secs;
use super::record::instant_before;
use super::record::instant_checked_sub;
use super::record::instant_lt;
use super::record::instant_minus;
use super::record::now;
use super::record::HashrateRecordType;
use super::record::ThreadHashrateRecord;
use crate::types::LogicalCoreId;

verus! {

broadcast use vstd::std_specs::hash::group_hash_axioms;

/// Hashes checked in one round, and when the round was accounted.
#[derive(Clone, Copy, Debug)]
pub struct SlidingWindowRecord {
    pub time: Instant,
    pub checked_hashes_count: u64,
    pub duration: Duration,
}

impl SlidingWindowRecord {
    pub fn new(time: Instant, checked_hashes_count: u64, duration: Duration) -> (r: Self)
        ensures
            r == (SlidingWindowRecord { time, checked_hashes_count, duration }),
    {
        SlidingWindowRecord { time, checked_hashes_count, duration }
    }
}

/// The rounds of the last `SECS` seconds, the newest first.
#[derive(Debug)]
pub struct SlidingWindow<const SECS: u64> {
    records: VecDeque<SlidingWindowRecord>,
    window_size: Duration,
}

/// The rounds come newest first: none is older than a round behind it.
pub open spec fn newest_first(records: Seq<SlidingWindowRecord>) -> bool {
    forall|i: int, j: int|
        0 <= i < j < records.len() ==> !instant_before(
            #[trigger] records[i].time,
            #[trigger] records[j].time,
        )
}

/// `after` is what is left of `before` once the records older than `cutoff` are dropped from
/// its back (where the oldest are): none when the window reaches before the clock's origin.
pub open spec fn pruned(
    before: Seq<SlidingWindowRecord>,
    after: Seq<SlidingWindowRecord>,
    cutoff: Option<Instant>,
) -> bool {
    match cutoff {
        None => after == before,
        Some(c) => {
            &&& after.len() <= before.len()
            &&& after == before.take(after.len() as int)
            &&& forall|j: int|
                after.len() <= j < before.len() ==> instant_before(#[trigger] before[j].time, c)
            &&& after.len() > 0 ==> !instant_before(after.last().time, c)
            &&& newest_first(before) ==> forall|k: int|
                0 <= k < after.len() ==> !instant_before(#[trigger] after[k].time, c)
        },
    }
}

/// `after` is a window whose rounds were `before_records`, over `before_size`, once a round of
/// `hashes_count` hashes over `duration` is accounted: the rounds that fell out of the window at
/// the moment of the new round are dropped, and the new round comes first.
pub open spec fn window_accounted<const SECS: u64>(
    before_records: Seq<SlidingWindowRecord>,
    before_size: Duration,
    after: SlidingWindow<SECS>,
    hashes_count: u64,
    duration: Duration,
) -> bool {
    &&& after.spec_window_size() == before_size
    &&& after.spec_records().len() > 0
    &&& after.spec_records()[0].checked_hashes_count == hashes_count
    &&& after.spec_records()[0].duration == duration
    &&& pruned(
        before_records,
        after.spec_records().drop_first(),
        instant_minus(after.spec_records()[0].time, before_size),
    )
}

/// The hashes checked in the rounds, all together.
pub open spec fn hashes_in(records: Seq<SlidingWindowRecord>) -> nat
    decreases records.len(),
{
    if records.len() == 0 {
        0
    } else {
        hashes_in(records.drop_last()) + records.last().checked_hashes_count as nat
    }
}

/// The time of the rounds added up in order from zero, or `None` once a sum does not fit in a
/// duration.
pub open spec fn time_in(records: Seq<SlidingWindowRecord>) -> Option<Duration>
    decreases records.len(),
{
    if records.len() == 0 {
        Some(duration_of_secs(0))
    } else {
        match time_in(records.drop_last()) {
            Some(d) => duration_checked_sum(d, records.last().duration),
            None => None,
        }
    }
}

proof fn lemma_hashes_in_grows(records: Seq<SlidingWindowRecord>, i: int)
    requires
        0 <= i <= records.len(),
    ensures
        hashes_in(records.take(i)) <= hashes_in(records),
    decreases records.len() - i,
{
    if i < records.len() {
        lemma_hashes_in_grows(records, i + 1);
        assert(records.take(i + 1).drop_last() =~= records.take(i));
    } else {
        assert(records.take(i) =~= records);
    }
}

proof fn lemma_time_in_stays_none(records: Seq<SlidingWindowRecord>, i: int)
    requires
        0 <= i <= records.len(),
        time_in(records.take(i)) is None,
    ensures
        time_in(records) is None,
    decreases records.len() - i,
{
    if i < records.len() {
        assert(records.take(i + 1).drop_last() =~= records.take(i));
        lemma_time_in_stays_none(records, i + 1);
    } else {
        assert(records.take(i) =~= records);
    }
}

impl<const SECS: u64> SlidingWindow<SECS> {
    pub closed spec fn spec_records(&self) -> Seq<SlidingWindowRecord> {
        self.records@
    }

    pub closed spec fn spec_window_size(&self) -> Duration {
        self.window_size
    }

    pub fn new() -> (r: Self)
        ensures
            r.spec_records().len() == 0,
            r.spec_window_size() == duration_of_secs(SECS),
    {
        let window_size = duration_from_secs(SECS);
        SlidingWindow { records: VecDeque::new(), window_size }
    }

/// The hashes checked in the window's rounds, or `None` where the total does not fit in 64
    /// bits.
    pub fn checked_hashes_total(&self) -> (r: Option<u64>)
        ensures
            r == (if hashes_in(self.spec_records()) <= u64::MAX {
                Some(hashes_in(self.spec_records()) as u64)
            } else {
                None::<u64>
            }),
    {
        let ghost records = self.records@;
        let mut total: u64 = 0;
        let mut i: usize = 0;
        while i < self.records.len()
            invariant
                records == self.records@,
                0 <= i <= records.len(),
                total == hashes_in(records.take(i as int)),
            decreases records.len() - i,
        {
            proof {
                assert(records.take(i + 1).drop_last() =~= records.take(i as int));
            }
            let count = self.records[i].checked_hashes_count;
            match total.checked_add(count) {
                Some(sum) => total = sum,
                None => {
                    proof {
                        lemma_hashes_in_grows(records, i + 1);
                    }
                    return None;
                },
            }
            i = i + 1;
        }
        proof {
            assert(records.take(i as int) =~= records);
        }
        Some(total)
    }

    /// The time of the window's rounds added up, or `None` where a sum does not fit in a
    /// duration.
    pub fn duration_total(&self) -> (r: Option<Duration>)
        ensures
            r == time_in(self.spec_records()),
    {
        let ghost records = self.records@;
        let mut total: Duration = duration_from_secs(0);
        let mut i: usize = 0;
        while i < self.records.len()
            invariant
                records == self.records@,
                0 <= i <= records.len(),
                time_in(records.take(i as int)) == Some(total),
            decreases records.len() - i,
        {
            proof {
                assert(records.take(i + 1).drop_last() =~= records.take(i as int));
            }
            match duration_checked_add(total, self.records[i].duration) {
                Some(sum) => total = sum,
                None => {
                    proof {
                        lemma_time_in_stays_none(records, i + 1);
                    }
                    return None;
                },
            }
            i = i + 1;
        }
        proof {
            assert(records.take(i as int) =~= records);
        }
        Some(total)
    }

    pub fn records(&self) -> (r: &VecDeque<SlidingWindowRecord>)
        ensures
            r@ == self.spec_records(),
    {
        &self.records
    }

    /// Accounts a round at `current_time`, after dropping the rounds that fell out of the window.
    pub fn account_record_at(&mut self, current_time: Instant, hashes_count: u64, duration: Duration)
        ensures
            final(self).spec_window_size() == old(self).spec_window_size(),
            final(self).spec_records().len() > 0,
            final(self).spec_records()[0] == (SlidingWindowRecord {
                time: current_time,
                checked_hashes_count: hashes_count,
                duration,
            }),
            pruned(
                old(self).spec_records(),
                final(self).spec_records().drop_first(),
                instant_minus(current_time, old(self).spec_window_size()),
            ),
    {
        self.prune_old(current_time);
        let ghost kept = self.records@;
        let record = SlidingWindowRecord::new(current_time, hashes_count, duration);
        self.records.push_front(record);
        proof {
            assert(self.records@.drop_first() =~= kept);
        }
    }

    /// Accounts a round now.
    pub fn account_record(&mut self, hashes_count: u64, duration: Duration)
        ensures
            window_accounted(
                old(self).spec_records(),
                old(self).spec_window_size(),
                *final(self),
                hashes_count,
                duration,
            ),
    {
        let current_time = now();
        self.account_record_at(current_time, hashes_count, duration);
    }

    /// Drops the rounds that are older than the window, seen from `current_time`.
    pub fn prune_old(&mut self, current_time: Instant)
        ensures
            final(self).spec_window_size() == old(self).spec_window_size(),
            pruned(
                old(self).spec_records(),
                final(self).spec_records(),
                instant_minus(current_time, old(self).spec_window_size()),
            ),
    {
        let last_account_time = match instant_checked_sub(current_time, self.window_size) {
            Some(time) => time,
            None => return ,
        };
        let ghost before = self.records@;
        while self.records.len() > 0
            invariant
                self.window_size == old(self).window_size,
                before == old(self).records@,
                self.records@.len() <= before.len(),
                self.records@ == before.take(self.records@.len() as int),
                forall|j: int|
                    self.records@.len() <= j < before.len() ==> instant_before(
                        #[trigger] before[j].time,
                        last_account_time,
                    ),
            ensures
                self.window_size == old(self).window_size,
                self.records@.len() <= before.len(),
                self.records@ == before.take(self.records@.len() as int),
                forall|j: int|
                    self.records@.len() <= j < before.len() ==> instant_before(
                        #[trigger] before[j].time,
                        last_account_time,
                    ),
                self.records@.len() > 0 ==> !instant_before(
                    self.records@.last().time,
                    last_account_time,
                ),
                newest_first(before) ==> forall|k: int|
                    0 <= k < self.records@.len() ==> !instant_before(
                        #[trigger] self.records@[k].time,
                        last_account_time,
                    ),
            decreases self.records@.len(),
        {
            let last = self.records.len() - 1;
            let older = instant_lt(&self.records[last].time, &last_account_time);
            if older {
                let ghost len = self.records@.len();
                self.records.pop_back();
                proof {
                    assert(self.records@ =~= before.take(len - 1));
                    assert(before[len - 1] == old(self).records@[len - 1]);
                }
            } else {
                proof {
                    let n = self.records@.len();
                    assert forall|k: int| 0 <= k < n && newest_first(before) implies !instant_before(
                        #[trigger] self.records@[k].time,
                        last_account_time,
                    ) by {
                        assert(self.records@[k] == before[k]);
                        assert(self.records@[n - 1] == before[n - 1]);
                        if k < n - 1 {
                            assert(!instant_before(before[k].time, before[n - 1].time));
                        }
                    }
                }
                break;
            }
        }
    }
}

/// All three windows of `after` are those of `before` with the round accounted.
pub open spec fn thread_accounted(
    before: SlidingThreadHashrate,
    after: SlidingThreadHashrate,
    hashes_count: u64,
    duration: Duration,
) -> bool {
    &&& window_accounted(
        before.window_10.spec_records(),
        before.window_10.spec_window_size(),
        after.window_10,
        hashes_count,
        duration,
    )
    &&& window_accounted(
        before.window_60.spec_records(),
        before.window_60.spec_window_size(),
        after.window_60,
        hashes_count,
        duration,
    )
    &&& window_accounted(
        before.window_900.spec_records(),
        before.window_900.spec_window_size(),
        after.window_900,
        hashes_count,
        duration,
    )
}

/// The windows of a core that reports for the first time: no rounds yet, over their sizes.
pub open spec fn fresh_thread_accounted(
    after: SlidingThreadHashrate,
    hashes_count: u64,
    duration: Duration,
) -> bool {
    &&& window_accounted(
        Seq::empty(),
        duration_of_secs(10),
        after.window_10,
        hashes_count,
        duration,
    )
    &&& window_accounted(
        Seq::empty(),
        duration_of_secs(60),
        after.window_60,
        hashes_count,
        duration,
    )
    &&& window_accounted(
        Seq::empty(),
        duration_of_secs(900),
        after.window_900,
        hashes_count,
        duration,
    )
}

/// The three windows of one logical core.
#[derive(Debug)]
pub struct SlidingThreadHashrate {
    pub window_10: SlidingWindow<10>,
    pub window_60: SlidingWindow<60>,
    pub window_900: SlidingWindow<900>,
}

impl SlidingThreadHashrate {
    pub fn new() -> (r: Self)
        ensures
            r.window_10.spec_records().len() == 0,
            r.window_60.spec_records().len() == 0,
            r.window_900.spec_records().len() == 0,
            r.window_10.spec_window_size() == duration_of_secs(10),
            r.window_60.spec_window_size() == duration_of_secs(60),
            r.window_900.spec_window_size() == duration_of_secs(900),
    {
        SlidingThreadHashrate {
            window_10: SlidingWindow::new(),
            window_60: SlidingWindow::new(),
            window_900: SlidingWindow::new(),
        }
    }

    /// Accounts a round in all three windows.
    pub fn account_record(&mut self, hashes_count: u64, duration: Duration)
        ensures
            thread_accounted(*old(self), *final(self), hashes_count, duration),
    {
        self.window_10.account_record(hashes_count, duration);
        self.window_60.account_record(hashes_count, duration);
        self.window_900.account_record(hashes_count, duration);
    }
}

/// Sliding hashrate of every logical core that reported checked hashes.
#[derive(Debug)]
pub struct SlidingHashrateCollector {
    hashrate: HashMap<LogicalCoreId, SlidingThreadHashrate>,
}

impl SlidingHashrateCollector {
    pub closed spec fn spec_hashrate(&self) -> Map<LogicalCoreId, SlidingThreadHashrate> {
        self.hashrate@
    }

    pub fn new() -> (r: Self)
        ensures
            r.spec_hashrate() == Map::<LogicalCoreId, SlidingThreadHashrate>::empty(),
    {
        SlidingHashrateCollector { hashrate: HashMap::new() }
    }

    /// Accounts a report: only checked hashes count, other reports change nothing.
    pub fn account_record(&mut self, record: ThreadHashrateRecord)
        ensures
            !(record.variant is CheckedHashes) ==> final(self).spec_hashrate() == old(
                self,
            ).spec_hashrate(),
            record.variant is CheckedHashes ==> {
                &&& final(self).spec_hashrate().dom() == old(self).spec_hashrate().dom().insert(
                    record.core_id,
                )
                &&& forall|c: LogicalCoreId|
                    c != record.core_id && #[trigger] old(self).spec_hashrate().contains_key(c)
                        ==> final(self).spec_hashrate()[c] == old(self).spec_hashrate()[c]
                &&& if old(self).spec_hashrate().contains_key(record.core_id) {
                    thread_accounted(
                        old(self).spec_hashrate()[record.core_id],
                        final(self).spec_hashrate()[record.core_id],
                        record.variant->count as u64,
                        record.duration,
                    )
                } else {
                    fresh_thread_accounted(
                        final(self).spec_hashrate()[record.core_id],
                        record.variant->count as u64,
                        record.duration,
                    )
                }
            },
    {
        let hashes_count: u64 = match record.variant {
            HashrateRecordType::CheckedHashes { count } => count as u64,
            _ => return ,
        };
        let mut thread_hashrate = match self.hashrate.remove(&record.core_id) {
            Some(thread_hashrate) => thread_hashrate,
            None => SlidingThreadHashrate::new(),
        };
        let ghost before = thread_hashrate;
        proof {
            if !old(self).hashrate@.contains_key(record.core_id) {
                assert(before.window_10.spec_records() =~= Seq::<SlidingWindowRecord>::empty());
                assert(before.window_60.spec_records() =~= Seq::<SlidingWindowRecord>::empty());
                assert(before.window_900.spec_records() =~= Seq::<SlidingWindowRecord>::empty());
            }
        }
        thread_hashrate.account_record(hashes_count, record.duration);
        proof {
            assert(thread_accounted(before, thread_hashrate, hashes_count, record.duration));
        }
        self.hashrate.insert(record.core_id, thread_hashrate);
        proof {
            assert(self.hashrate@.dom() =~= old(self).hashrate@.dom().insert(record.core_id));
            assert(self.hashrate@[record.core_id] == thread_hashrate);
        }
    }

    pub fn hashrate(&self) -> (r: &HashMap<LogicalCoreId, SlidingThreadHashrate>)
        ensures
            r@ == self.spec_hashrate(),
    {
        &self.hashrate
    }
}

} // verus!
