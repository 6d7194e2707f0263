use frame_dedup::dedup::{deduplicate_frames, discarded_frames, score_adjacent_in_batches};
use frame_dedup::raster::{compare_frame_files, score_frame_pair, ssim_score_ppm, LumaImage, ScoreError};
use frame_dedup::IN_PROCESS_THRESHOLD_PPM;
use image::{ImageBuffer, Luma};

fn uniform(width: u32, height: u32, value: u8) -> LumaImage {
    LumaImage { width, height, pixels: vec![value; (width * height) as usize] }
}

fn save_uniform(dir: &tempfile::TempDir, name: &str, value: u8) -> String {
    let path = format!("{}/{}", dir.path().to_str().unwrap(), name);
    let img: ImageBuffer<Luma<u8>, Vec<u8>> = ImageBuffer::from_pixel(4, 4, Luma([value]));
    img.save(&path).unwrap();
    path
}

#[test]
fn identical_rasters_score_exactly_one() {
    let img = uniform(7, 5, 128);
    assert_eq!(ssim_score_ppm(&img, &img), Ok(1_000_000));
    // any contents, not only uniform ones
    let mut jumbled = uniform(3, 3, 0);
    jumbled.pixels = vec![0, 17, 255, 3, 99, 254, 1, 2, 3];
    assert_eq!(ssim_score_ppm(&jumbled, &jumbled), Ok(1_000_000));
}

#[test]
fn scoring_is_deterministic() {
    let a = uniform(6, 4, 10);
    let b = uniform(6, 4, 200);
    let first = ssim_score_ppm(&a, &b);
    let second = ssim_score_ppm(&a, &b);
    assert_eq!(first, second);
}

#[test]
fn scoring_is_symmetric() {
    let a = uniform(6, 4, 10);
    let b = uniform(6, 4, 200);
    assert_eq!(ssim_score_ppm(&a, &b), ssim_score_ppm(&b, &a));
}

#[test]
fn exact_uniform_pair_score() {
    // per-pixel term for values 0 and 255:
    // 65025 * 10^6 / (10^4 * 255^2 + 65025) = 99 ppm (rounded toward zero)
    let a = uniform(2, 2, 0);
    let b = uniform(2, 2, 255);
    assert_eq!(ssim_score_ppm(&a, &b), Ok(99));
}

#[test]
fn mismatched_dimensions_are_an_error_not_a_score() {
    let a = uniform(2, 2, 7);
    let b = uniform(3, 3, 7);
    let r = ssim_score_ppm(&a, &b);
    assert_eq!(r, Err(ScoreError::DimensionMismatch));
    assert_ne!(r, Ok(0));
}

#[test]
fn empty_rasters_are_an_error() {
    let a = uniform(0, 0, 0);
    assert_eq!(ssim_score_ppm(&a, &a), Err(ScoreError::EmptyImage));
}

#[test]
fn mismatched_dimension_files_are_an_error() {
    let dir = tempfile::tempdir().unwrap();
    let small = format!("{}/small.png", dir.path().to_str().unwrap());
    let big = format!("{}/big.png", dir.path().to_str().unwrap());
    let s: ImageBuffer<Luma<u8>, Vec<u8>> = ImageBuffer::from_pixel(2, 2, Luma([9]));
    s.save(&small).unwrap();
    let b: ImageBuffer<Luma<u8>, Vec<u8>> = ImageBuffer::from_pixel(5, 5, Luma([9]));
    b.save(&big).unwrap();
    assert_eq!(compare_frame_files(&small, &big), Err(ScoreError::DimensionMismatch));
    // the batch layer degrades the same pair to the fail-safe zero
    assert_eq!(score_frame_pair(&small, &big), 0);
}

#[test]
fn unreadable_files_are_an_error() {
    let r = compare_frame_files("no_such_frame_a.png", "no_such_frame_b.png");
    assert_eq!(r, Err(ScoreError::FirstUnreadable));
    assert_eq!(score_frame_pair("no_such_frame_a.png", "no_such_frame_b.png"), 0);
}

#[test]
fn identical_files_score_one_through_decode() {
    let dir = tempfile::tempdir().unwrap();
    let a = save_uniform(&dir, "frame_0000.png", 33);
    let b = save_uniform(&dir, "frame_0001.png", 33);
    assert_eq!(compare_frame_files(&a, &b), Ok(1_000_000));
    assert_eq!(compare_frame_files(&a, &b), compare_frame_files(&b, &a));
}

#[test]
fn ten_frame_sequence_discards_only_the_duplicate() {
    // frames 3 and 4 are pixel-identical, every other adjacent pair differs
    // substantially; one batch covers the whole sequence
    let values: [u8; 10] = [0, 255, 0, 80, 80, 255, 0, 255, 0, 255];
    let dir = tempfile::tempdir().unwrap();
    let mut frames: Vec<String> = Vec::new();
    for (i, v) in values.iter().enumerate() {
        frames.push(save_uniform(&dir, &format!("frame_{:04}.png", i), *v));
    }
    let d = deduplicate_frames(&frames, 20, IN_PROCESS_THRESHOLD_PPM);
    let expected = vec![
        false, false, false, true, false, false, false, false, false, false,
    ];
    assert_eq!(d, expected);
    let doomed = discarded_frames(&frames, &d);
    assert_eq!(doomed, vec![frames[3].clone()]);
    assert_eq!(frames.len() - doomed.len(), 9);
}

#[test]
fn batch_of_two_protects_the_boundary_duplicate() {
    // frames 0-1 identical and frames 2-3 identical; with batches of two the
    // pair (1, 2) straddles the boundary and is never even scored
    let dir = tempfile::tempdir().unwrap();
    let frames: Vec<String> = vec![
        save_uniform(&dir, "frame_0000.png", 50),
        save_uniform(&dir, "frame_0001.png", 50),
        save_uniform(&dir, "frame_0002.png", 50),
        save_uniform(&dir, "frame_0003.png", 50),
    ];
    let scores = score_adjacent_in_batches(&frames, 2);
    assert_eq!(scores, vec![1_000_000, 0, 1_000_000]);
    let d = deduplicate_frames(&frames, 2, IN_PROCESS_THRESHOLD_PPM);
    assert_eq!(d, vec![true, false, true, false]);
}

#[test]
fn pixel_access_is_row_major() {
    let mut img = uniform(3, 2, 0);
    img.pixels = vec![1, 2, 3, 4, 5, 6];
    assert_eq!(img.get(0, 0), 1);
    assert_eq!(img.get(2, 0), 3);
    assert_eq!(img.get(0, 1), 4);
    assert_eq!(img.get(2, 1), 6);
}
