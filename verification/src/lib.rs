//! Streaming statistics and per-record transforms for FASTQ sequencing reads.
//!
//! The crate is organised around the pieces of a single pass over a file of
//! reads: order statistics on read lengths, counts over quality and sequence
//! bytes, the running summary of a whole file, and the decisions that keep,
//! drop or shorten a record.

pub mod error;
pub mod filter;
pub mod lengths;
pub mod pattern;
pub mod quality;
pub mod quality_yield;
pub mod record;
pub mod sample;
pub mod stats;
pub mod transform;
