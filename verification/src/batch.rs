//! Batch scheduling: validated run configuration, the chunk-size policy, and
//! the partition of the job list into contiguous, non-overlapping chunks that
//! cover every job exactly once.

use vstd::prelude::*;
use crate::paths::{PathEscapeError, copy_bytes, is_strictly_under, map_output_path, mapped_path};

verus! {

/// A validated run configuration: the encoding quality, the size of the worker
/// pool, and the tuning knob of the chunk-size policy (about how many chunks
/// each worker should see).
#[derive(Clone, Copy, Debug)]
pub struct BatchConfig {
    pub quality: u8,
    pub worker_count: usize,
    pub tuning: usize,
}

/// What a proposed configuration may be rejected for.
#[derive(Clone, Copy, Debug, PartialEq, Eq, Structural)]
pub enum ConfigError {
    QualityOutOfRange,
    NoWorkers,
    NoTuning,
    PoolTooLarge,
}

/// A configuration the scheduler accepts: a codec-valid quality, at least one
/// worker, and a chunk count that fits the machine's arithmetic.
pub open spec fn config_valid(quality: int, worker_count: int, tuning: int) -> bool {
    &&& 1 <= quality <= 100
    &&& 1 <= worker_count
    &&& 1 <= tuning
    &&& worker_count * tuning <= usize::MAX
}

impl BatchConfig {
    /// Accepts exactly the valid configurations, and names what is wrong with
    /// any other.
    pub fn new(quality: u8, worker_count: usize, tuning: usize) -> (config: Result<
        BatchConfig,
        ConfigError,
    >)
        ensures
            config is Ok <==> config_valid(quality as int, worker_count as int, tuning as int),
            config matches Ok(c) ==> c.quality == quality && c.worker_count == worker_count
                && c.tuning == tuning,
            config matches Err(e) ==> match e {
                ConfigError::QualityOutOfRange => !(1 <= quality <= 100),
                ConfigError::NoWorkers => 1 <= quality <= 100 && worker_count < 1,
                ConfigError::NoTuning => 1 <= quality <= 100 && 1 <= worker_count && tuning < 1,
                ConfigError::PoolTooLarge => 1 <= quality <= 100 && 1 <= worker_count && 1
                    <= tuning && worker_count * tuning > usize::MAX,
            },
    {
        if quality < 1 || quality > 100 {
            return Err(ConfigError::QualityOutOfRange);
        }
        if worker_count < 1 {
            return Err(ConfigError::NoWorkers);
        }
        if tuning < 1 {
            return Err(ConfigError::NoTuning);
        }
        match worker_count.checked_mul(tuning) {
            Some(_) => Ok(BatchConfig { quality, worker_count, tuning }),
            None => Err(ConfigError::PoolTooLarge),
        }
    }
}

/// One unit of work: a source file, the destination its output is written to,
/// and the encoding quality.
pub struct Job {
    pub source: Vec<u8>,
    pub dest: Vec<u8>,
    pub quality: u8,
}

/// Builds the job for one source file at dispatch time: the destination is the
/// mapped output path. A source outside the source root makes no job; it is a
/// path-escape failure.
pub fn make_job(
    source: &Vec<u8>,
    source_root: &Vec<u8>,
    output_root: &Vec<u8>,
    target_ext: &Vec<u8>,
    quality: u8,
) -> (job: Result<Job, PathEscapeError>)
    ensures
        job is Ok <==> is_strictly_under(source@, source_root@),
        job matches Ok(j) ==> j.source@ == source@ && j.dest@ == mapped_path(
            source@,
            source_root@,
            output_root@,
            target_ext@,
        ) && j.quality == quality,
{
    match map_output_path(source, source_root, output_root, target_ext) {
        Ok(dest) => Ok(Job { source: copy_bytes(source), dest, quality }),
        Err(e) => Err(e),
    }
}

/// A contiguous slice `start..end` of the job list, owned by one worker.
#[derive(Clone, Copy, Debug, PartialEq, Eq, Structural)]
pub struct Chunk {
    pub start: usize,
    pub end: usize,
}

/// Number of jobs in a chunk.
pub open spec fn chunk_len(c: Chunk) -> int {
    c.end - c.start
}

/// The chunks are non-empty, contiguous, start at job 0, and end at job `n`:
/// together they cover the index range `0..n` with no gap and no overlap.
pub open spec fn chunks_partition(chunks: Seq<Chunk>, n: int) -> bool {
    &&& 0 <= n
    &&& (n == 0 ==> chunks.len() == 0)
    &&& (n > 0 ==> chunks.len() > 0 && chunks[0].start == 0 && chunks.last().end == n)
    &&& (forall|i: int| 0 <= i < chunks.len() ==> (#[trigger] chunks[i]).start < chunks[i].end <= n)
    &&& (forall|i: int| 0 < i < chunks.len() ==> (#[trigger] chunks[i]).start == chunks[i - 1].end)
}

/// Total number of jobs over a list of chunks.
pub open spec fn sum_chunk_lens(chunks: Seq<Chunk>) -> int
    decreases chunks.len(),
{
    if chunks.len() == 0 {
        0
    } else {
        sum_chunk_lens(chunks.drop_last()) + chunk_len(chunks.last())
    }
}

/// The chunk-size policy: `max(1, total / (workers * tuning))`, so that a
/// worker pool of `workers` sees about `tuning` chunks each, and a chunk is
/// never empty.
pub open spec fn spec_chunk_size(total: int, workers: int, tuning: int) -> int {
    if total / (workers * tuning) < 1 {
        1
    } else {
        total / (workers * tuning)
    }
}

/// Size of the chunks a job list of `total` jobs is cut into for `workers`
/// workers, with `tuning` chunks aimed at each worker.
pub fn chunk_size(total: usize, workers: usize, tuning: usize) -> (size: usize)
    requires
        1 <= workers,
        1 <= tuning,
        workers * tuning <= usize::MAX,
    ensures
        size == spec_chunk_size(total as int, workers as int, tuning as int),
        1 <= size,
{
    proof {
        assert(workers * tuning >= 1) by (nonlinear_arith)
            requires workers >= 1 && tuning >= 1;
    }
    let per_worker_share = total / (workers * tuning);
    if per_worker_share < 1 {
        1
    } else {
        per_worker_share
    }
}

/// Cuts the index range `0..n` into chunks of `size` jobs each; the last chunk
/// holds whatever remains and may be shorter, but is never empty.
pub fn partition(n: usize, size: usize) -> (chunks: Vec<Chunk>)
    requires
        1 <= size,
    ensures
        chunks_partition(chunks@, n as int),
        forall|i: int| 0 <= i < chunks@.len() ==> chunk_len(#[trigger] chunks@[i]) <= size,
        forall|i: int| 0 <= i < chunks@.len() - 1 ==> chunk_len(#[trigger] chunks@[i]) == size,
{
    let mut chunks: Vec<Chunk> = Vec::new();
    let mut next: usize = 0;
    while next < n
        invariant
            1 <= size,
            next <= n,
            next == 0 ==> chunks@.len() == 0,
            next > 0 ==> chunks@.len() > 0 && chunks@[0].start == 0 && chunks@.last().end == next,
            forall|i: int| 0 <= i < chunks@.len() ==> (#[trigger] chunks@[i]).start < chunks@[i].end <= next,
            forall|i: int| 0 < i < chunks@.len() ==> (#[trigger] chunks@[i]).start == chunks@[i - 1].end,
            forall|i: int| 0 <= i < chunks@.len() ==> chunk_len(#[trigger] chunks@[i]) <= size,
            forall|i: int| 0 <= i < chunks@.len() - 1 ==> chunk_len(#[trigger] chunks@[i]) == size,
            chunks@.len() > 0 ==> (chunk_len(chunks@.last()) == size || chunks@.last().end == n),
        decreases n - next,
    {
        let end = if n - next > size {
            next + size
        } else {
            n
        };
        chunks.push(Chunk { start: next, end });
        next = end;
    }
    chunks
}

/// Chunk boundaries never move backwards: a later chunk begins no earlier than
/// an earlier chunk ends.
pub proof fn lemma_chunk_ends_monotone(chunks: Seq<Chunk>, n: int, i: int, j: int)
    requires
        chunks_partition(chunks, n),
        0 <= i <= j < chunks.len(),
    ensures
        chunks[i].end <= chunks[j].end,
    decreases j - i,
{
    if i < j {
        lemma_chunk_ends_monotone(chunks, n, i, j - 1);
        assert(chunks[j].start == chunks[j - 1].end);
    }
}

/// Dropping the final chunk leaves a partition of the jobs before it.
pub proof fn lemma_partition_drop_last(chunks: Seq<Chunk>, n: int)
    requires
        chunks_partition(chunks, n),
        chunks.len() >= 1,
    ensures
        chunks_partition(chunks.drop_last(), chunks.last().start as int),
{
    let rest = chunks.drop_last();
    let m = chunks.last().start as int;
    if chunks.len() == 1 {
        assert(n > 0);
        assert(chunks[0].start == 0);
    } else {
        assert(rest.last() == chunks[chunks.len() - 2]);
        assert(rest.last().end == m);
        assert forall|i: int| 0 <= i < rest.len() implies (#[trigger] rest[i]).start < rest[i].end <= m by {
            lemma_chunk_ends_monotone(chunks, n, i, chunks.len() - 2);
        }
    }
}

/// The chunks of a partition account for every job exactly once, so the sum of
/// the per-chunk job counts is the total job count. With one progress-counter
/// increment per job in a finished chunk, the counter therefore ends at
/// exactly the number of jobs, whatever the worker count.
pub proof fn lemma_partition_sum(chunks: Seq<Chunk>, n: int)
    requires
        chunks_partition(chunks, n),
    ensures
        sum_chunk_lens(chunks) == n,
    decreases chunks.len(),
{
    if chunks.len() == 0 {
    } else {
        lemma_partition_drop_last(chunks, n);
        lemma_partition_sum(chunks.drop_last(), chunks.last().start as int);
    }
}

/// Every job index lies inside some chunk of the partition: the chunks leave
/// no gap.
pub proof fn lemma_partition_covers(chunks: Seq<Chunk>, n: int, j: int)
    requires
        chunks_partition(chunks, n),
        0 <= j < n,
    ensures
        exists|i: int|
            0 <= i < chunks.len() && (#[trigger] chunks[i]).start <= j < chunks[i].end,
    decreases chunks.len(),
{
    let last = chunks.last();
    if last.start <= j {
        assert(chunks[chunks.len() - 1].start <= j < chunks[chunks.len() - 1].end);
    } else {
        lemma_partition_drop_last(chunks, n);
        lemma_partition_covers(chunks.drop_last(), last.start as int, j);
        let i = choose|i: int|
            0 <= i < chunks.drop_last().len()
                && (#[trigger] chunks.drop_last()[i]).start <= j < chunks.drop_last()[i].end;
        assert(chunks[i].start <= j < chunks[i].end);
    }
}

/// No job index lies in two different chunks: the chunks do not overlap, so no
/// job is processed by more than one worker.
pub proof fn lemma_partition_disjoint(chunks: Seq<Chunk>, n: int, i1: int, i2: int, j: int)
    requires
        chunks_partition(chunks, n),
        0 <= i1 < i2 < chunks.len(),
        chunks[i1].start <= j < chunks[i1].end,
    ensures
        !(chunks[i2].start <= j < chunks[i2].end),
{
    lemma_chunk_ends_monotone(chunks, n, i1, i2 - 1);
    assert(chunks[i2].start == chunks[i2 - 1].end);
}

} // verus!
