//! Frame deduplication pipeline: similarity scoring between adjacent video
//! frames, batched keep/discard decisions, hardware-profile resolution, and
//! the orchestration of an external media tool run by the (unverified) host.

pub mod controller;
pub mod dedup;
pub mod gateway;
pub mod hw;
pub mod order;
pub mod parse;
pub mod paths;
pub mod raster;
pub mod text;
pub mod tool;

use vstd::prelude::*;

verus! {

/// A similarity score is a fixed-point value in parts per million:
/// `1_000_000` means "identical", `0` means "could not be computed"
/// (treated as "not a duplicate", failing safe against deletion).
pub const SCORE_ONE_PPM: u64 = 1_000_000;

/// Discard threshold for the in-process similarity strategy.
pub const IN_PROCESS_THRESHOLD_PPM: u64 = 950_000;

/// Discard threshold for the external-metric similarity strategy.
pub const EXTERNAL_THRESHOLD_PPM: u64 = 980_000;

/// True when a similarity score crosses the duplicate threshold, i.e. the
/// earlier frame of the scored pair is judged redundant.
pub fn is_duplicate_score(score_ppm: u64, threshold_ppm: u64) -> (r: bool)
    ensures
        r == (score_ppm > threshold_ppm),
{
    score_ppm > threshold_ppm
}

/// The two interchangeable similarity strategies. They are calibrated
/// against different score distributions and must not share a threshold.
#[derive(Clone, Copy, PartialEq, Eq, Structural, Debug)]
pub enum ScoringStrategy {
    /// Decode both frames in process and compute the simplified per-pixel
    /// metric.
    InProcess,
    /// Ask the external tool for its similarity metric and parse its
    /// diagnostic text.
    ExternalMetric,
}

/// The discard threshold of a strategy.
pub fn threshold_for(strategy: ScoringStrategy) -> (t: u64)
    ensures
        strategy == ScoringStrategy::InProcess ==> t == IN_PROCESS_THRESHOLD_PPM,
        strategy == ScoringStrategy::ExternalMetric ==> t == EXTERNAL_THRESHOLD_PPM,
{
    match strategy {
        ScoringStrategy::InProcess => IN_PROCESS_THRESHOLD_PPM,
        ScoringStrategy::ExternalMetric => EXTERNAL_THRESHOLD_PPM,
    }
}

} // verus!
