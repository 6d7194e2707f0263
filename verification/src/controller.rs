//! Top-level orchestration of one deduplication run, as an explicit state
//! machine over the pipeline stages. The unverified host performs each
//! stage's outside work (spawning the tool, enumerating and deleting files)
//! and reports the outcome back; every decision between stages is made and
//! checked here.
//!
//! Stage order: extract, then collect, then score, then prune, then
//! re-encode; `Aborted` is terminal and reachable from any working stage on
//! unrecoverable failure. No method accepts an `Aborted` or `Done`
//! controller, so once a run aborts — in particular when no frames were
//! extracted — no later stage, the re-encode included, can be reached.

use crate::dedup::{deduplicate_frames, discarded_frames, is_batch_tail, spec_discarded};
use vstd::prelude::*;
use vstd::string::StringExecFns;

verus! {

/// The pipeline stages of one run.
#[derive(Clone, Copy, PartialEq, Eq, Structural, Debug)]
pub enum Stage {
    /// Waiting for the extraction invocation to finish.
    Extracting,
    /// Waiting for the workspace's frame files to be enumerated.
    Collecting,
    /// Waiting for the discarded frame files to be deleted.
    Pruning,
    /// Waiting for the re-encode invocation to finish.
    Reencoding,
    /// The run is complete and the output path stands.
    Done,
    /// The run failed at a required stage; terminal.
    Aborted,
}

/// Why a run aborted.
#[derive(Clone, Copy, PartialEq, Eq, Structural, Debug)]
pub enum PipelineError {
    /// The extraction invocation could not be run at all.
    ExtractFailed,
    /// Extraction produced no frames to process.
    NoFrames,
}

impl PipelineError {
    /// The error's one-line description.
    pub fn message(&self) -> (r: String)
        ensures
            *self == PipelineError::NoFrames ==> r@ == "No frames to process"@,
            *self == PipelineError::ExtractFailed ==> r@ == "Failed to extract frames"@,
    {
        match self {
            PipelineError::NoFrames => String::from_str("No frames to process"),
            PipelineError::ExtractFailed => String::from_str("Failed to extract frames"),
        }
    }
}

/// One deduplication run: the stage it waits in, the collected frame
/// sequence, the per-frame discard decisions, and its batching parameters.
pub struct DeduplicationController {
    /// The stage the run waits in.
    pub stage: Stage,
    /// The collected frame paths, in temporal order; filled on collection.
    pub frames: Vec<String>,
    /// One discard decision per frame; filled on scoring.
    pub decisions: Vec<bool>,
    /// The abort reason, once aborted.
    pub error: Option<PipelineError>,
    /// Frames per batch.
    pub batch_size: usize,
    /// Discard threshold in parts per million.
    pub threshold_ppm: u64,
}

impl DeduplicationController {
    /// The decisions always align with the frames one to one, the global
    /// last frame is never discarded, and neither is the last frame of any
    /// batch; an aborted run carries its reason.
    pub open spec fn wf(self) -> bool {
        &&& self.batch_size >= 1
        &&& self.decisions@.len() == self.frames@.len()
        &&& (self.frames@.len() > 0 ==> self.decisions@[self.frames@.len() - 1] == false)
        &&& forall|i: int|
            0 <= i < self.decisions@.len() && is_batch_tail(i, self.batch_size as int)
                ==> self.decisions@[i] == false
        &&& (self.stage == Stage::Aborted <==> self.error is Some)
        &&& (self.stage == Stage::Pruning || self.stage == Stage::Reencoding || self.stage
            == Stage::Done ==> self.frames@.len() > 0)
    }

    /// A fresh run, waiting for extraction.
    pub fn new(batch_size: usize, threshold_ppm: u64) -> (r: Self)
        requires
            batch_size >= 1,
        ensures
            r.wf(),
            r.stage == Stage::Extracting,
            r.batch_size == batch_size,
            r.threshold_ppm == threshold_ppm,
    {
        DeduplicationController {
            stage: Stage::Extracting,
            frames: Vec::new(),
            decisions: Vec::new(),
            error: None,
            batch_size,
            threshold_ppm,
        }
    }

    /// Record the outcome of the extraction invocation: on success the run
    /// waits for collection, on failure it aborts.
    pub fn on_extract_finished(&mut self, ok: bool)
        requires
            old(self).wf(),
            old(self).stage == Stage::Extracting,
        ensures
            final(self).wf(),
            ok ==> final(self).stage == Stage::Collecting,
            !ok ==> final(self).stage == Stage::Aborted && final(self).error == Some(
                PipelineError::ExtractFailed,
            ),
            final(self).frames == old(self).frames,
            final(self).batch_size == old(self).batch_size,
            final(self).threshold_ppm == old(self).threshold_ppm,
    {
        if ok {
            self.stage = Stage::Collecting;
        } else {
            self.stage = Stage::Aborted;
            self.error = Some(PipelineError::ExtractFailed);
        }
    }

    /// Take the collected frame sequence, score it and decide: an empty
    /// collection aborts with the explicit no-frames error before any later
    /// stage — the re-encode included — can be reached; otherwise the run
    /// scores every in-batch adjacent pair, stores one decision per frame and
    /// waits for pruning.
    pub fn on_frames_collected(&mut self, frames: Vec<String>)
        requires
            old(self).wf(),
            old(self).stage == Stage::Collecting,
        ensures
            final(self).wf(),
            frames@.len() == 0 ==> final(self).stage == Stage::Aborted && final(self).error
                == Some(PipelineError::NoFrames),
            frames@.len() > 0 ==> final(self).stage == Stage::Pruning && final(self).frames
                == frames && final(self).decisions@.len() == frames@.len(),
            final(self).batch_size == old(self).batch_size,
            final(self).threshold_ppm == old(self).threshold_ppm,
    {
        if frames.len() == 0 {
            self.stage = Stage::Aborted;
            self.error = Some(PipelineError::NoFrames);
            return ;
        }
        let decisions = deduplicate_frames(&frames, self.batch_size, self.threshold_ppm);
        self.frames = frames;
        self.decisions = decisions;
        self.stage = Stage::Pruning;
    }

    /// The frame files to delete: exactly those whose decision is discard,
    /// in original order.
    pub fn files_to_prune(&self) -> (r: Vec<String>)
        requires
            self.wf(),
            self.stage == Stage::Pruning,
        ensures
            r.deep_view() == spec_discarded(
                self.frames.deep_view(),
                self.decisions@,
                self.frames@.len() as int,
            ),
    {
        discarded_frames(&self.frames, &self.decisions)
    }

    /// Record that pruning ran (deletion failures are best-effort and do not
    /// abort); the run waits for the re-encode.
    pub fn on_prune_finished(&mut self)
        requires
            old(self).wf(),
            old(self).stage == Stage::Pruning,
        ensures
            final(self).wf(),
            final(self).stage == Stage::Reencoding,
            final(self).frames == old(self).frames,
            final(self).decisions == old(self).decisions,
    {
        self.stage = Stage::Reencoding;
    }

    /// Record the outcome of the re-encode. Encoder failure is best-effort:
    /// the run still completes and the output path is still handed to the
    /// caller, so the stage is `Done` either way.
    pub fn on_encode_finished(&mut self, ok: bool)
        requires
            old(self).wf(),
            old(self).stage == Stage::Reencoding,
        ensures
            final(self).wf(),
            final(self).stage == Stage::Done,
    {
        if ok {
            self.stage = Stage::Done;
        } else {
            self.stage = Stage::Done;
        }
    }
}

} // verus!
