//! Batched keep/discard decisions over an ordered frame sequence.
//!
//! The sequence is split into contiguous batches of `batch_size`; each frame
//! is compared only with its immediate successor inside the same batch, and
//! the earlier frame of a pair is marked for discard when the score crosses
//! the threshold. The last frame of every batch is never marked: a duplicate
//! straddling a batch boundary is deliberately never detected, a documented
//! blind spot kept for behavioural parity rather than silently fixed. The
//! global last frame is likewise never marked. Decisions are indexed by the
//! frame's original position, never by completion order.

use crate::raster::score_frame_pair;
use vstd::prelude::*;

verus! {

/// `i` is the index of the last frame of its batch.
pub open spec fn is_batch_tail(i: int, batch_size: int) -> bool {
    (i + 1) % batch_size == 0
}

/// The discard decision for frame `i` of `scores.len() + 1` frames, where
/// `scores[i]` is the similarity of frames `i` and `i + 1`: discard exactly
/// the frames that have an in-batch successor more similar than the
/// threshold.
pub open spec fn spec_discard(scores: Seq<u64>, batch_size: int, threshold: int, i: int) -> bool {
    i < scores.len() && !is_batch_tail(i, batch_size) && scores[i] > threshold
}

/// Keep/discard decisions from the per-pair similarity scores, one decision
/// per frame, in original index order.
///
/// `scores` has one entry per adjacent frame pair, so the frame count is
/// `scores.len() + 1`; scores of pairs straddling a batch boundary are never
/// consulted.
pub fn decide_batches(scores: &Vec<u64>, batch_size: usize, threshold_ppm: u64) -> (d: Vec<bool>)
    requires
        batch_size >= 1,
        scores@.len() < usize::MAX,
    ensures
        d@.len() == scores@.len() + 1,
        forall|i: int|
            0 <= i < d@.len() ==> d@[i] == spec_discard(
                scores@,
                batch_size as int,
                threshold_ppm as int,
                i,
            ),
        d@[d@.len() - 1] == false,
        forall|i: int| 0 <= i < d@.len() && is_batch_tail(i, batch_size as int) ==> d@[i] == false,
{
    let n = scores.len();
    let mut decisions: Vec<bool> = Vec::new();
    let mut i: usize = 0;
    while i < n
        invariant
            batch_size >= 1,
            n == scores@.len(),
            n < usize::MAX,
            i <= n,
            decisions@.len() == i as int,
            forall|j: int|
                0 <= j < i as int ==> decisions@[j] == spec_discard(
                    scores@,
                    batch_size as int,
                    threshold_ppm as int,
                    j,
                ),
        decreases n - i,
    {
        let tail = (i + 1) % batch_size == 0;
        let discard = !tail && scores[i] > threshold_ppm;
        decisions.push(discard);
        i += 1;
    }
    decisions.push(false);
    decisions
}

/// Similarity scores of every adjacent in-batch frame pair, computed with the
/// in-process strategy; pairs straddling a batch boundary are never scored
/// and are recorded as `0`.
pub fn score_adjacent_in_batches(frames: &Vec<String>, batch_size: usize) -> (scores: Vec<u64>)
    requires
        batch_size >= 1,
        frames@.len() >= 1,
    ensures
        scores@.len() == frames@.len() - 1,
        forall|i: int| 0 <= i < scores@.len() ==> scores@[i] <= 1000000,
        forall|i: int|
            0 <= i < scores@.len() && is_batch_tail(i, batch_size as int) ==> scores@[i] == 0,
{
    let n = frames.len() - 1;
    let mut scores: Vec<u64> = Vec::new();
    let mut i: usize = 0;
    while i < n
        invariant
            batch_size >= 1,
            n == frames@.len() - 1,
            i <= n,
            scores@.len() == i as int,
            forall|j: int| 0 <= j < i as int ==> scores@[j] <= 1000000,
            forall|j: int|
                0 <= j < i as int && is_batch_tail(j, batch_size as int) ==> scores@[j] == 0,
        decreases n - i,
    {
        let score = if (i + 1) % batch_size == 0 {
            0
        } else {
            score_frame_pair(frames[i].as_str(), frames[i + 1].as_str())
        };
        scores.push(score);
        i += 1;
    }
    scores
}

/// The whole in-process deduplication pass: one discard decision per frame,
/// aligned with the input by index. The last frame of the sequence and the
/// last frame of every batch are always kept.
pub fn deduplicate_frames(frames: &Vec<String>, batch_size: usize, threshold_ppm: u64) -> (d: Vec<
    bool,
>)
    requires
        batch_size >= 1,
    ensures
        d@.len() == frames@.len(),
        frames@.len() > 0 ==> d@[d@.len() - 1] == false,
        forall|i: int| 0 <= i < d@.len() && is_batch_tail(i, batch_size as int) ==> d@[i] == false,
{
    if frames.len() == 0 {
        return Vec::new();
    }
    let scores = score_adjacent_in_batches(frames, batch_size);
    decide_batches(&scores, batch_size, threshold_ppm)
}

/// The frames selected for discard, in original order: exactly those whose
/// decision is `true`.
pub open spec fn spec_discarded(frames: Seq<Seq<char>>, d: Seq<bool>, n: int) -> Seq<Seq<char>>
    decreases n,
{
    if n <= 0 {
        Seq::empty()
    } else if d[n - 1] {
        spec_discarded(frames, d, n - 1).push(frames[n - 1])
    } else {
        spec_discarded(frames, d, n - 1)
    }
}

/// The paths of the frames marked for discard, in original order.
pub fn discarded_frames(frames: &Vec<String>, decisions: &Vec<bool>) -> (r: Vec<String>)
    requires
        decisions@.len() == frames@.len(),
    ensures
        r.deep_view() == spec_discarded(frames.deep_view(), decisions@, frames@.len() as int),
{
    let n = frames.len();
    let mut r: Vec<String> = Vec::new();
    let mut i: usize = 0;
    while i < n
        invariant
            n == frames@.len(),
            decisions@.len() == n as int,
            i <= n,
            r.deep_view() == spec_discarded(frames.deep_view(), decisions@, i as int),
        decreases n - i,
    {
        if decisions[i] {
            r.push(frames[i].clone());
            proof {
                assert(r.deep_view() =~= spec_discarded(
                    frames.deep_view(),
                    decisions@,
                    i as int + 1,
                ));
            }
        } else {
            proof {
                assert(r.deep_view() =~= spec_discarded(
                    frames.deep_view(),
                    decisions@,
                    i as int + 1,
                ));
            }
        }
        i += 1;
    }
    r
}

} // verus!
