//! Failure collection and the final run summary: an append-only error log,
//! chunk-by-chunk aggregation of outcomes, and the summary assembled once all
//! chunks are retired.

use vstd::prelude::*;
use crate::outcome::{
    FailureRecord, FailureRecordView, Outcome, count_failures, count_successes, failure_records,
    records_view, lemma_counts_partition_outcomes, lemma_failure_records_len,
};
use crate::progress::ProgressTracker;

verus! {

/// Append-only log of per-job failures, drained once at the end of the run.
/// Its length always equals the number of failed outcomes recorded so far.
#[derive(Debug)]
pub struct ErrorLog {
    entries: Vec<FailureRecord>,
}

impl View for ErrorLog {
    type V = Seq<FailureRecordView>;

    closed spec fn view(&self) -> Seq<FailureRecordView> {
        records_view(self.entries@)
    }
}

impl ErrorLog {
    pub fn new() -> (log: Self)
        ensures
            log@ == Seq::<FailureRecordView>::empty(),
    {
        let log = ErrorLog { entries: Vec::new() };
        proof {
            assert(log@ =~= Seq::<FailureRecordView>::empty());
        }
        log
    }

    /// Appends one failure record; earlier records are never altered.
    pub fn append(&mut self, record: FailureRecord)
        ensures
            final(self)@ == old(self)@.push(record@),
    {
        let ghost r = record@;
        self.entries.push(record);
        proof {
            assert(self@ =~= old(self)@.push(r));
        }
    }

    pub fn len(&self) -> (n: usize)
        ensures
            n == self@.len(),
    {
        self.entries.len()
    }

    /// Consumes the log and hands out every record in insertion order. Taking
    /// the log by value closes it: nothing can be appended afterwards.
    pub fn drain(self) -> (records: Vec<FailureRecord>)
        ensures
            records_view(records@) == self@,
    {
        self.entries
    }
}

/// The final aggregate of one batch run.
pub struct RunSummary {
    pub total_jobs: usize,
    pub succeeded: usize,
    pub failed: usize,
    pub failures: Vec<FailureRecord>,
    pub elapsed_ms: u64,
}

/// Copies the bytes of a path, so a failure record can keep the source path of
/// the outcome it records.
fn copy_bytes(source: &Vec<u8>) -> (copy: Vec<u8>)
    ensures
        copy@ == source@,
{
    let mut copy: Vec<u8> = Vec::new();
    let mut i: usize = 0;
    while i < source.len()
        invariant
            i <= source@.len(),
            copy@ == source@.take(i as int),
        decreases source@.len() - i,
    {
        copy.push(source[i]);
        assert(copy@ =~= source@.take(i + 1));
        i = i + 1;
    }
    assert(copy@ =~= source@);
    copy
}

/// Records one finished chunk: the progress counter advances by exactly the
/// chunk's job count, and every failed outcome of the chunk is appended to the
/// error log, in chunk order, with its path and cause. A failure neither stops
/// the recording nor touches the counter's exactness.
pub fn record_chunk(outcomes: &Vec<Outcome>, progress: &mut ProgressTracker, log: &mut ErrorLog)
    requires
        old(progress).wf(),
        old(progress).spec_done() + outcomes@.len() <= old(progress).spec_total(),
    ensures
        final(progress).spec_done() == old(progress).spec_done() + outcomes@.len(),
        final(progress).spec_total() == old(progress).spec_total(),
        final(progress).wf(),
        final(log)@ == old(log)@ + failure_records(outcomes@),
{
    let mut i: usize = 0;
    while i < outcomes.len()
        invariant
            i <= outcomes@.len(),
            log@ == old(log)@ + failure_records(outcomes@.take(i as int)),
            progress == old(progress),
        decreases outcomes@.len() - i,
    {
        let ghost prefix = outcomes@.take(i as int);
        match &outcomes[i] {
            Outcome::Failure { path, cause } => {
                log.append(FailureRecord { path: copy_bytes(path), cause: *cause });
            },
            Outcome::Success { .. } => {},
        }
        proof {
            assert(outcomes@.take(i + 1).drop_last() =~= prefix);
            assert(outcomes@.take(i + 1).last() == outcomes@[i as int]);
            if outcomes@[i as int] is Failure {
                assert(log@ =~= old(log)@ + failure_records(outcomes@.take(i + 1)));
            } else {
                assert(failure_records(outcomes@.take(i + 1)) =~= failure_records(prefix));
            }
        }
        i = i + 1;
    }
    assert(outcomes@.take(outcomes@.len() as int) =~= outcomes@);
    progress.advance(outcomes.len());
}

/// Assembles the summary once every job has been counted: the failure count is
/// the log's length, every job not logged as failed succeeded, and the two
/// counts add up to the total.
pub fn finish_run(progress: &ProgressTracker, log: ErrorLog, elapsed_ms: u64) -> (summary: RunSummary)
    requires
        progress.wf(),
        progress.spec_done() == progress.spec_total(),
        log@.len() <= progress.spec_total(),
    ensures
        summary.total_jobs == progress.spec_total(),
        summary.failed == log@.len(),
        summary.succeeded == progress.spec_total() - log@.len(),
        summary.succeeded + summary.failed == summary.total_jobs,
        records_view(summary.failures@) == log@,
        summary.elapsed_ms == elapsed_ms,
{
    let total_jobs = progress.total();
    let failed = log.len();
    RunSummary {
        total_jobs,
        succeeded: total_jobs - failed,
        failed,
        failures: log.drain(),
        elapsed_ms,
    }
}

/// Folds a whole run's outcomes into a summary in one pass: the success and
/// failure counts split the job list exactly, and the failure list holds one
/// record per failed outcome, in outcome order.
pub fn summarize_outcomes(outcomes: &Vec<Outcome>, elapsed_ms: u64) -> (summary: RunSummary)
    ensures
        summary.total_jobs == outcomes@.len(),
        summary.succeeded == count_successes(outcomes@),
        summary.failed == count_failures(outcomes@),
        summary.succeeded + summary.failed == summary.total_jobs,
        records_view(summary.failures@) == failure_records(outcomes@),
        summary.elapsed_ms == elapsed_ms,
{
    let mut progress = ProgressTracker::new(outcomes.len());
    let mut log = ErrorLog::new();
    record_chunk(outcomes, &mut progress, &mut log);
    proof {
        lemma_counts_partition_outcomes(outcomes@);
        lemma_failure_records_len(outcomes@);
        assert(Seq::<FailureRecordView>::empty() + failure_records(outcomes@) =~= failure_records(
            outcomes@,
        ));
    }
    finish_run(&progress, log, elapsed_ms)
}

} // verus!
