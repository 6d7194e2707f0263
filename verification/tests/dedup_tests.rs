use frame_dedup::controller::{DeduplicationController, PipelineError, Stage};
use frame_dedup::dedup::{decide_batches, discarded_frames};
use frame_dedup::{
    is_duplicate_score, threshold_for, ScoringStrategy, EXTERNAL_THRESHOLD_PPM,
    IN_PROCESS_THRESHOLD_PPM, SCORE_ONE_PPM,
};

#[test]
fn decisions_align_one_per_frame() {
    // 5 frames, 4 adjacent scores, batch of 3
    let scores: Vec<u64> = vec![990_000, 100_000, 990_000, 990_000];
    let d = decide_batches(&scores, 3, IN_PROCESS_THRESHOLD_PPM);
    assert_eq!(d.len(), 5);
    // index 0: in batch, similar -> discard; index 1: dissimilar
    // index 2: batch tail -> kept even though similar to index 3
    // index 3: in batch, similar -> discard; index 4: global last
    assert_eq!(d, vec![true, false, false, true, false]);
}

#[test]
fn last_decision_is_always_false() {
    for n in 1..8usize {
        let scores: Vec<u64> = vec![SCORE_ONE_PPM; n - 1];
        let d = decide_batches(&scores, 4, IN_PROCESS_THRESHOLD_PPM);
        assert_eq!(d.len(), n);
        assert_eq!(d[n - 1], false);
    }
}

#[test]
fn batch_boundary_blind_spot() {
    // 6 frames in batches of 2: every pair straddling a boundary is
    // protected no matter how similar its frames are scored.
    let scores: Vec<u64> = vec![SCORE_ONE_PPM; 5];
    let d = decide_batches(&scores, 2, IN_PROCESS_THRESHOLD_PPM);
    assert_eq!(d, vec![true, false, true, false, true, false]);
}

#[test]
fn singleton_batches_keep_everything() {
    let scores: Vec<u64> = vec![SCORE_ONE_PPM; 3];
    let d = decide_batches(&scores, 1, IN_PROCESS_THRESHOLD_PPM);
    assert_eq!(d, vec![false, false, false, false]);
}

#[test]
fn threshold_is_strict() {
    assert!(!is_duplicate_score(IN_PROCESS_THRESHOLD_PPM, IN_PROCESS_THRESHOLD_PPM));
    assert!(is_duplicate_score(IN_PROCESS_THRESHOLD_PPM + 1, IN_PROCESS_THRESHOLD_PPM));
    let scores: Vec<u64> = vec![950_000];
    let d = decide_batches(&scores, 10, IN_PROCESS_THRESHOLD_PPM);
    assert_eq!(d, vec![false, false]);
}

#[test]
fn strategies_have_distinct_thresholds() {
    assert_eq!(threshold_for(ScoringStrategy::InProcess), 950_000);
    assert_eq!(threshold_for(ScoringStrategy::ExternalMetric), 980_000);
    assert_ne!(IN_PROCESS_THRESHOLD_PPM, EXTERNAL_THRESHOLD_PPM);
}

#[test]
fn discarded_frames_keep_original_order() {
    let frames: Vec<String> = vec![
        "a.png".to_string(),
        "b.png".to_string(),
        "c.png".to_string(),
        "d.png".to_string(),
    ];
    let decisions = vec![true, false, true, false];
    let doomed = discarded_frames(&frames, &decisions);
    assert_eq!(doomed, vec!["a.png".to_string(), "c.png".to_string()]);
}

#[test]
fn controller_aborts_on_zero_frames() {
    let mut c = DeduplicationController::new(20, IN_PROCESS_THRESHOLD_PPM);
    assert_eq!(c.stage, Stage::Extracting);
    c.on_extract_finished(true);
    assert_eq!(c.stage, Stage::Collecting);
    c.on_frames_collected(Vec::new());
    assert_eq!(c.stage, Stage::Aborted);
    assert_eq!(c.error, Some(PipelineError::NoFrames));
    assert_eq!(c.error.unwrap().message(), "No frames to process");
}

#[test]
fn controller_aborts_on_extract_failure() {
    let mut c = DeduplicationController::new(20, IN_PROCESS_THRESHOLD_PPM);
    c.on_extract_finished(false);
    assert_eq!(c.stage, Stage::Aborted);
    assert_eq!(c.error, Some(PipelineError::ExtractFailed));
    assert_eq!(c.error.unwrap().message(), "Failed to extract frames");
}

#[test]
fn controller_runs_through_all_stages() {
    let mut c = DeduplicationController::new(20, IN_PROCESS_THRESHOLD_PPM);
    c.on_extract_finished(true);
    // paths that do not decode score 0: nothing is discarded
    let frames: Vec<String> = vec!["missing_one.png".to_string(), "missing_two.png".to_string()];
    c.on_frames_collected(frames);
    assert_eq!(c.stage, Stage::Pruning);
    assert_eq!(c.decisions, vec![false, false]);
    assert_eq!(c.files_to_prune().len(), 0);
    c.on_prune_finished();
    assert_eq!(c.stage, Stage::Reencoding);
    c.on_encode_finished(false);
    assert_eq!(c.stage, Stage::Done);
    assert_eq!(c.error, None);
}
