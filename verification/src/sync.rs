//! Aggregated results of a sync run.
//!
//! A `SyncResult` is opened at the start of one entity kind's pass and
//! finalized at its end; it counts every record considered and collects
//! per-record failures without ever raising — partial failure is made
//! visible, never escalated. A `FullSyncSummary` wraps the results of one
//! run.

use vstd::prelude::*;

verus! {

/// A per-record failure recorded during a sync pass.
#[derive(Debug, Clone)]
pub struct SyncError {
    pub entity_id: String,
    pub message: String,
    pub timestamp: i64,
}

impl SyncError {
    /// Records one failure at the given time.
    pub fn new(entity_id: &str, message: &str, now_ms: i64) -> (r: Self)
        ensures
            r.entity_id@ == entity_id@,
            r.message@ == message@,
            r.timestamp == now_ms,
    {
        SyncError {
            entity_id: entity_id.to_owned(),
            message: message.to_owned(),
            timestamp: now_ms,
        }
    }
}

/// The duration between two clock readings, clamped to a representable,
/// non-negative span.
pub open spec fn spec_duration_ms(started: int, completed: int) -> int {
    if completed <= started {
        0
    } else if completed - started > i64::MAX {
        i64::MAX as int
    } else {
        completed - started
    }
}

/// The counters of one entity kind's pass.
#[derive(Debug, Clone)]
pub struct SyncResult {
    pub entity_type: String,
    pub total_processed: usize,
    pub inserted: usize,
    pub updated: usize,
    pub errors: Vec<SyncError>,
    pub started_at: i64,
    pub completed_at: i64,
    pub duration_ms: i64,
}

impl SyncResult {
    /// Opens the accumulator for one entity kind at the given time.
    pub fn new(entity_type: &str, now_ms: i64) -> (r: Self)
        ensures
            r.entity_type@ == entity_type@,
            r.total_processed == 0,
            r.inserted == 0,
            r.updated == 0,
            r.errors@.len() == 0,
            r.started_at == now_ms,
            r.completed_at == now_ms,
            r.duration_ms == 0,
    {
        SyncResult {
            entity_type: entity_type.to_owned(),
            total_processed: 0,
            inserted: 0,
            updated: 0,
            errors: Vec::new(),
            started_at: now_ms,
            completed_at: now_ms,
            duration_ms: 0,
        }
    }

    /// Closes the accumulator, computing the pass duration.
    pub fn finalize(&mut self, now_ms: i64)
        ensures
            final(self).entity_type == old(self).entity_type,
            final(self).total_processed == old(self).total_processed,
            final(self).inserted == old(self).inserted,
            final(self).updated == old(self).updated,
            final(self).errors == old(self).errors,
            final(self).started_at == old(self).started_at,
            final(self).completed_at == now_ms,
            final(self).duration_ms == spec_duration_ms(old(self).started_at as int, now_ms as int),
    {
        self.completed_at = now_ms;
        let d: i128 = (now_ms as i128) - (self.started_at as i128);
        self.duration_ms = if d <= 0 {
            0
        } else if d > i64::MAX as i128 {
            i64::MAX
        } else {
            d as i64
        };
    }

    /// Whether the pass saw no per-record failure.
    pub fn is_success(&self) -> (r: bool)
        ensures
            r == (self.errors@.len() == 0),
    {
        self.errors.is_empty()
    }

    /// Counts one more record considered.
    pub fn count_processed(&mut self)
        requires
            old(self).total_processed < usize::MAX,
        ensures
            *final(self) == (SyncResult {
                total_processed: (old(self).total_processed + 1) as usize,
                ..*old(self)
            }),
    {
        self.total_processed = self.total_processed + 1;
    }

    /// Counts one successful insert.
    pub fn count_inserted(&mut self)
        requires
            old(self).inserted < usize::MAX,
        ensures
            *final(self) == (SyncResult { inserted: (old(self).inserted + 1) as usize, ..*old(self) }),
    {
        self.inserted = self.inserted + 1;
    }

    /// Counts one successful update.
    pub fn count_updated(&mut self)
        requires
            old(self).updated < usize::MAX,
        ensures
            *final(self) == (SyncResult { updated: (old(self).updated + 1) as usize, ..*old(self) }),
    {
        self.updated = self.updated + 1;
    }

    /// Records a per-record failure; the pass goes on.
    pub fn record_error(&mut self, entity_id: &str, message: &str, now_ms: i64)
        ensures
            final(self).errors@.len() == old(self).errors@.len() + 1,
            final(self).errors@.last().entity_id@ == entity_id@,
            final(self).errors@.last().message@ == message@,
            final(self).errors@.last().timestamp == now_ms,
            final(self).errors@.take(old(self).errors@.len() as int) == old(self).errors@,
            final(self).entity_type == old(self).entity_type,
            final(self).total_processed == old(self).total_processed,
            final(self).inserted == old(self).inserted,
            final(self).updated == old(self).updated,
            final(self).started_at == old(self).started_at,
            final(self).completed_at == old(self).completed_at,
            final(self).duration_ms == old(self).duration_ms,
    {
        self.errors.push(SyncError::new(entity_id, message, now_ms));
        proof {
            assert(self.errors@.take(old(self).errors@.len() as int) =~= old(self).errors@);
        }
    }
}

/// The total of records considered across the run's passes.
pub open spec fn spec_total_processed(results: Seq<SyncResult>) -> int
    decreases results.len(),
{
    if results.len() == 0 {
        0
    } else {
        results[0].total_processed + spec_total_processed(results.skip(1))
    }
}

/// The total of per-record failures across the run's passes.
pub open spec fn spec_total_errors(results: Seq<SyncResult>) -> int
    decreases results.len(),
{
    if results.len() == 0 {
        0
    } else {
        results[0].errors@.len() + spec_total_errors(results.skip(1))
    }
}

/// Whether no pass of the run recorded any failure.
pub open spec fn spec_all_success(results: Seq<SyncResult>) -> bool {
    forall|i: int| 0 <= i < results.len() ==> #[trigger] results[i].errors@.len() == 0
}

/// The results of one sync run, one per entity kind, in pass order.
#[derive(Debug, Clone)]
pub struct FullSyncSummary {
    pub direction: String,
    pub results: Vec<SyncResult>,
    pub total_duration_ms: i64,
    pub started_at: i64,
    pub completed_at: i64,
}

impl FullSyncSummary {
    /// Opens the summary of one run at the given time.
    pub fn new(direction: &str, now_ms: i64) -> (r: Self)
        ensures
            r.direction@ == direction@,
            r.results@.len() == 0,
            r.total_duration_ms == 0,
            r.started_at == now_ms,
            r.completed_at == now_ms,
    {
        FullSyncSummary {
            direction: direction.to_owned(),
            results: Vec::new(),
            total_duration_ms: 0,
            started_at: now_ms,
            completed_at: now_ms,
        }
    }

    /// Appends the result of one entity kind's pass.
    pub fn add_result(&mut self, result: SyncResult)
        ensures
            final(self).results@ == old(self).results@.push(result),
            final(self).direction == old(self).direction,
            final(self).total_duration_ms == old(self).total_duration_ms,
            final(self).started_at == old(self).started_at,
            final(self).completed_at == old(self).completed_at,
    {
        self.results.push(result);
    }

    /// Closes the summary, computing the run duration.
    pub fn finalize(&mut self, now_ms: i64)
        ensures
            final(self).direction == old(self).direction,
            final(self).results == old(self).results,
            final(self).started_at == old(self).started_at,
            final(self).completed_at == now_ms,
            final(self).total_duration_ms == spec_duration_ms(
                old(self).started_at as int,
                now_ms as int,
            ),
    {
        self.completed_at = now_ms;
        let d: i128 = (now_ms as i128) - (self.started_at as i128);
        self.total_duration_ms = if d <= 0 {
            0
        } else if d > i64::MAX as i128 {
            i64::MAX
        } else {
            d as i64
        };
    }

    /// The total of records considered, saturating at the machine limit.
    pub fn total_processed(&self) -> (r: usize)
        ensures
            spec_total_processed(self.results@) <= usize::MAX ==> r == spec_total_processed(
                self.results@,
            ),
            spec_total_processed(self.results@) > usize::MAX ==> r == usize::MAX,
    {
        let mut sum: usize = 0;
        let n = self.results.len();
        let mut k: usize = 0;
        proof {
            assert(self.results@.skip(0) =~= self.results@);
        }
        while k < n
            invariant
                k <= n,
                n == self.results@.len(),
                spec_total_processed(self.results@) == sum + spec_total_processed(
                    self.results@.skip(k as int),
                ) || (sum == usize::MAX && spec_total_processed(self.results@) > usize::MAX),
            decreases n - k,
        {
            proof {
                assert(self.results@.skip(k as int).skip(1) =~= self.results@.skip(k + 1));
                assert(self.results@.skip(k as int)[0] == self.results@[k as int]);
                lemma_total_processed_nonneg(self.results@.skip(k + 1));
            }
            let t = self.results[k].total_processed;
            sum = if sum > usize::MAX - t {
                usize::MAX
            } else {
                sum + t
            };
            k = k + 1;
        }
        proof {
            assert(self.results@.skip(n as int) =~= Seq::<SyncResult>::empty());
        }
        sum
    }

    /// The total of per-record failures, saturating at the machine limit.
    pub fn total_errors(&self) -> (r: usize)
        ensures
            spec_total_errors(self.results@) <= usize::MAX ==> r == spec_total_errors(
                self.results@,
            ),
            spec_total_errors(self.results@) > usize::MAX ==> r == usize::MAX,
    {
        let mut sum: usize = 0;
        let n = self.results.len();
        let mut k: usize = 0;
        proof {
            assert(self.results@.skip(0) =~= self.results@);
        }
        while k < n
            invariant
                k <= n,
                n == self.results@.len(),
                spec_total_errors(self.results@) == sum + spec_total_errors(
                    self.results@.skip(k as int),
                ) || (sum == usize::MAX && spec_total_errors(self.results@) > usize::MAX),
            decreases n - k,
        {
            proof {
                assert(self.results@.skip(k as int).skip(1) =~= self.results@.skip(k + 1));
                assert(self.results@.skip(k as int)[0] == self.results@[k as int]);
                lemma_total_errors_nonneg(self.results@.skip(k + 1));
            }
            let t = self.results[k].errors.len();
            sum = if sum > usize::MAX - t {
                usize::MAX
            } else {
                sum + t
            };
            k = k + 1;
        }
        proof {
            assert(self.results@.skip(n as int) =~= Seq::<SyncResult>::empty());
        }
        sum
    }

    /// True exactly when no per-kind result carries any error.
    pub fn is_success(&self) -> (r: bool)
        ensures
            r == spec_all_success(self.results@),
    {
        let n = self.results.len();
        let mut k: usize = 0;
        while k < n
            invariant
                k <= n,
                n == self.results@.len(),
                forall|i: int| 0 <= i < k ==> #[trigger] self.results@[i].errors@.len() == 0,
            decreases n - k,
        {
            if !self.results[k].errors.is_empty() {
                return false;
            }
            k = k + 1;
        }
        true
    }
}

/// The totals are sums of counts, so never negative.
proof fn lemma_total_processed_nonneg(results: Seq<SyncResult>)
    ensures
        spec_total_processed(results) >= 0,
    decreases results.len(),
{
    if results.len() > 0 {
        lemma_total_processed_nonneg(results.skip(1));
    }
}

/// The totals are sums of counts, so never negative.
proof fn lemma_total_errors_nonneg(results: Seq<SyncResult>)
    ensures
        spec_total_errors(results) >= 0,
    decreases results.len(),
{
    if results.len() > 0 {
        lemma_total_errors_nonneg(results.skip(1));
    }
}

/// The saved watermarks of incremental synchronization.
#[derive(Debug, Clone)]
pub struct SyncState {
    pub last_sync_sheets_to_db: Option<i64>,
    pub last_sync_db_to_sheets: Option<i64>,
    pub last_full_sync: Option<i64>,
}

impl Default for SyncState {
    /// Before any run, no watermark is known.
    fn default() -> (r: Self)
        ensures
            r.last_sync_sheets_to_db is None,
            r.last_sync_db_to_sheets is None,
            r.last_full_sync is None,
    {
        SyncState {
            last_sync_sheets_to_db: None,
            last_sync_db_to_sheets: None,
            last_full_sync: None,
        }
    }
}

} // verus!
