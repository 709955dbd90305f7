//! Core of a batch image transcoding pipeline: job paths are mirrored from a
//! source tree into an output tree, the job list is partitioned into chunks
//! for a worker pool, and per-job outcomes are aggregated into a run summary.
//! File reading and writing, the WebP encoder, and the worker pool itself live
//! outside this crate; everything here is verified.

pub mod outcome;
pub mod paths;
pub mod batch;
pub mod progress;
pub mod report;
pub mod codec;
