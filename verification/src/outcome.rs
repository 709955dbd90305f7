//! Per-job outcomes and the failure taxonomy: a job either succeeds with its
//! byte sizes or fails with a cause, and a batch never aborts on a failure.

use vstd::prelude::*;

verus! {

/// Why a single transcoding job failed.
#[derive(Clone, Copy, Debug, PartialEq, Eq, Structural)]
pub enum TranscodeError {
    /// The source file was missing or unreadable (an I/O cause).
    NotFound,
    /// The source bytes were not a supported, well-formed image (a format cause).
    DecodeFailed,
    /// The destination write failed.
    WriteFailed,
}

/// Cause recorded for a failed job: either its path escaped the source root
/// before transcoding began, or the transcoding itself failed.
#[derive(Clone, Copy, Debug, PartialEq, Eq, Structural)]
pub enum FailureCause {
    PathEscape,
    Transcode(TranscodeError),
}

/// One entry of the error log: the source path of a failed job and the cause.
#[derive(Clone, Debug, PartialEq, Eq)]
pub struct FailureRecord {
    pub path: Vec<u8>,
    pub cause: FailureCause,
}

/// Mathematical model of a failure record: the path as a byte sequence.
pub ghost struct FailureRecordView {
    pub path: Seq<u8>,
    pub cause: FailureCause,
}

impl View for FailureRecord {
    type V = FailureRecordView;

    open spec fn view(&self) -> FailureRecordView {
        FailureRecordView { path: self.path@, cause: self.cause }
    }
}

/// The model of a whole record list.
pub open spec fn records_view(s: Seq<FailureRecord>) -> Seq<FailureRecordView> {
    s.map_values(|r: FailureRecord| r@)
}

/// The result of processing one job.
#[derive(Clone, Debug, PartialEq, Eq)]
pub enum Outcome {
    Success { original_size: u64, encoded_size: u64 },
    Failure { path: Vec<u8>, cause: FailureCause },
}

/// How many of the outcomes are successes.
pub open spec fn count_successes(s: Seq<Outcome>) -> int
    decreases s.len(),
{
    if s.len() == 0 {
        0
    } else {
        count_successes(s.drop_last()) + if s.last() is Success { 1int } else { 0int }
    }
}

/// How many of the outcomes are failures.
pub open spec fn count_failures(s: Seq<Outcome>) -> int
    decreases s.len(),
{
    if s.len() == 0 {
        0
    } else {
        count_failures(s.drop_last()) + if s.last() is Failure { 1int } else { 0int }
    }
}

/// The failure records of a run, one per failed outcome, in outcome order.
pub open spec fn failure_records(s: Seq<Outcome>) -> Seq<FailureRecordView>
    decreases s.len(),
{
    if s.len() == 0 {
        Seq::empty()
    } else {
        failure_records(s.drop_last()) + match s.last() {
            Outcome::Failure { path, cause } => seq![FailureRecordView { path: path@, cause }],
            Outcome::Success { .. } => Seq::empty(),
        }
    }
}

/// Every outcome is a success or a failure, so the two counts always add up
/// to the number of jobs.
pub proof fn lemma_counts_partition_outcomes(s: Seq<Outcome>)
    ensures
        count_successes(s) + count_failures(s) == s.len(),
        0 <= count_successes(s),
        0 <= count_failures(s),
    decreases s.len(),
{
    if s.len() > 0 {
        lemma_counts_partition_outcomes(s.drop_last());
    }
}

/// The error log holds exactly one record per failed outcome.
pub proof fn lemma_failure_records_len(s: Seq<Outcome>)
    ensures
        failure_records(s).len() == count_failures(s),
    decreases s.len(),
{
    if s.len() > 0 {
        lemma_failure_records_len(s.drop_last());
    }
}

/// Counting and record collection distribute over splitting a run into parts,
/// so outcomes may be aggregated chunk by chunk, in any grouping.
pub proof fn lemma_outcome_aggregation_splits(a: Seq<Outcome>, b: Seq<Outcome>)
    ensures
        count_successes(a + b) == count_successes(a) + count_successes(b),
        count_failures(a + b) == count_failures(a) + count_failures(b),
        failure_records(a + b) == failure_records(a) + failure_records(b),
    decreases b.len(),
{
    if b.len() == 0 {
        assert(a + b =~= a);
        assert(failure_records(a) + failure_records(b) =~= failure_records(a));
    } else {
        lemma_outcome_aggregation_splits(a, b.drop_last());
        assert((a + b).drop_last() =~= a + b.drop_last());
        assert((a + b).last() == b.last());
        assert(failure_records(a + b) =~= failure_records(a) + failure_records(b));
    }
}

/// A failing job does not push others out of the record: every failed outcome,
/// wherever it sits in the run, appears in the failure records with its path
/// and cause.
pub proof fn lemma_every_failure_recorded(s: Seq<Outcome>, i: int, path: Seq<u8>, cause: FailureCause)
    requires
        0 <= i < s.len(),
        s[i] matches Outcome::Failure { path: p, cause: c } && p@ == path && c == cause,
    ensures
        exists|k: int|
            0 <= k < failure_records(s).len()
                && (#[trigger] failure_records(s)[k]).path == path
                && failure_records(s)[k].cause == cause,
    decreases s.len(),
{
    if i == s.len() - 1 {
        let k = failure_records(s.drop_last()).len() as int;
        assert(failure_records(s)[k].path == path && failure_records(s)[k].cause == cause);
    } else {
        lemma_every_failure_recorded(s.drop_last(), i, path, cause);
        let k = choose|k: int|
            0 <= k < failure_records(s.drop_last()).len()
                && (#[trigger] failure_records(s.drop_last())[k]).path == path
                && failure_records(s.drop_last())[k].cause == cause;
        assert(failure_records(s)[k].path == path && failure_records(s)[k].cause == cause);
    }
}

} // verus!
