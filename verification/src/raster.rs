//! In-process similarity scoring between two single-channel luminance
//! rasters.
//!
//! The per-pixel formula is a deliberately simplified, non-windowed
//! approximation of SSIM: each pixel's local "mean" is the pixel value itself,
//! so the variance and covariance terms vanish and the per-pixel similarity
//! reduces to `(2*p1*p2 + c1) / (p1^2 + p2^2 + c1)` with `c1 = (0.01*255)^2`.
//! It is not canonical (windowed) SSIM and makes no fidelity claim to it.
//!
//! Scores are exact fixed-point values in parts per million; `c1 = 6.5025`
//! scaled by `10^4` is the integer `65025`, so the whole computation is exact
//! integer arithmetic and deterministic for identical inputs.

use vstd::arithmetic::div_mod::{
    lemma_div_is_ordered, lemma_div_multiples_vanish, lemma_div_pos_is_pos,
};
use vstd::prelude::*;

verus! {

/// A decoded frame as an 8-bit luminance raster, row-major.
pub struct LumaImage {
    pub width: u32,
    pub height: u32,
    pub pixels: Vec<u8>,
}

impl LumaImage {
    /// The pixel buffer holds exactly one sample per coordinate.
    pub open spec fn wf(self) -> bool {
        self.pixels@.len() == (self.width as int) * (self.height as int)
    }

    /// Pixel access by coordinate.
    pub fn get(&self, x: u32, y: u32) -> (p: u8)
        requires
            self.wf(),
            x < self.width,
            y < self.height,
        ensures
            p == self.pixels@[(y as int) * (self.width as int) + (x as int)],
    {
        proof {
            assert((y as int) * (self.width as int) + (x as int) < (self.width as int)
                * (self.height as int)) by (nonlinear_arith)
                requires
                    x < self.width,
                    y < self.height,
            ;
            assert((y as int) * (self.width as int) >= 0) by (nonlinear_arith)
                requires
                    y >= 0,
                    self.width >= 0,
            ;
            assert((y as int) * (self.width as int) + (x as int) < self.pixels@.len());
            assert((y as int) * (self.width as int) <= (y as int) * (self.width as int) + (
            x as int));
        }
        let len = self.pixels.len();
        let idx = y as usize * self.width as usize + x as usize;
        proof {
            assert(idx < len);
        }
        self.pixels[idx]
    }
}

/// Reasons the in-process strategy refuses to produce a score. A pair that
/// cannot be compared is an error here, never a silent zero; the batch layer
/// chooses how to degrade.
#[derive(Clone, Copy, PartialEq, Eq, Structural, Debug)]
pub enum ScoreError {
    /// The first frame file could not be read or decoded.
    FirstUnreadable,
    /// The second frame file could not be read or decoded.
    SecondUnreadable,
    /// The two rasters have different dimensions; similarity is undefined
    /// across mismatched resolutions.
    DimensionMismatch,
    /// Both rasters are empty, so there is no pixel to average over.
    EmptyImage,
}

/// The simplified per-pixel similarity term, in parts per million:
/// `(2*p1*p2 + 6.5025) / (p1^2 + p2^2 + 6.5025)` scaled exactly by `10^6`
/// (numerator and denominator are both scaled by `10^4`, which makes the
/// constant integral), rounded toward zero.
pub open spec fn pixel_term_ppm(p1: u8, p2: u8) -> int {
    (20000 * ((p1 as int) * (p2 as int)) + 65025) * 1000000 / (10000 * ((p1 as int) * (p1 as int)
        + (p2 as int) * (p2 as int)) + 65025)
}

/// Sum of the per-pixel terms over the first `n` pixels.
pub open spec fn term_sum_ppm(a: Seq<u8>, b: Seq<u8>, n: int) -> int
    decreases n,
{
    if n <= 0 {
        0
    } else {
        term_sum_ppm(a, b, n - 1) + pixel_term_ppm(a[n - 1], b[n - 1])
    }
}

/// The whole-image score: the mean per-pixel term, in parts per million.
pub open spec fn spec_ssim_ppm(a: LumaImage, b: LumaImage) -> int {
    term_sum_ppm(a.pixels@, b.pixels@, a.pixels@.len() as int) / (a.pixels@.len() as int)
}

/// Every per-pixel term lies in `[0, 1_000_000]`.
pub proof fn lemma_pixel_term_bounds(p1: u8, p2: u8)
    ensures
        0 <= pixel_term_ppm(p1, p2) <= 1000000,
{
    let a = (p1 as int);
    let b = (p2 as int);
    let num = 20000 * (a * b) + 65025;
    let den = 10000 * (a * a + b * b) + 65025;
    assert(a * b >= 0 && a * a >= 0 && b * b >= 0 && 2 * (a * b) <= a * a + b * b)
        by (nonlinear_arith)
        requires
            a >= 0,
            b >= 0,
    ;
    assert(num >= 0 && 0 < den && num <= den);
    lemma_div_pos_is_pos(num * 1000000, den);
    lemma_div_is_ordered(num * 1000000, den * 1000000, den);
    lemma_div_multiples_vanish(1000000, den);
    assert(den * 1000000 / den == 1000000);
}

/// A pixel compared with itself scores exactly one.
pub proof fn lemma_pixel_term_self(p: u8)
    ensures
        pixel_term_ppm(p, p) == 1000000,
{
    let a = (p as int);
    let den = 10000 * (a * a + a * a) + 65025;
    assert(20000 * (a * a) + 65025 == den);
    assert(a * a >= 0) by (nonlinear_arith)
        requires
            a >= 0,
    ;
    assert(den > 0);
    lemma_div_multiples_vanish(1000000, den);
    assert(den * 1000000 / den == 1000000);
}

/// The per-pixel term does not depend on the order of its arguments.
pub proof fn lemma_pixel_term_symmetric(p1: u8, p2: u8)
    ensures
        pixel_term_ppm(p1, p2) == pixel_term_ppm(p2, p1),
{
    let a = (p1 as int);
    let b = (p2 as int);
    assert(a * b == b * a && a * a + b * b == b * b + a * a);
}

/// Partial sums of per-pixel terms lie in `[0, n * 1_000_000]`.
pub proof fn lemma_term_sum_bounds(a: Seq<u8>, b: Seq<u8>, n: int)
    requires
        0 <= n <= a.len(),
        n <= b.len(),
    ensures
        0 <= term_sum_ppm(a, b, n) <= n * 1000000,
    decreases n,
{
    if n > 0 {
        lemma_term_sum_bounds(a, b, n - 1);
        lemma_pixel_term_bounds(a[n - 1], b[n - 1]);
    }
}

/// Summing a raster against itself gives exactly `n` whole units.
pub proof fn lemma_term_sum_self(s: Seq<u8>, n: int)
    requires
        0 <= n <= s.len(),
    ensures
        term_sum_ppm(s, s, n) == n * 1000000,
    decreases n,
{
    if n > 0 {
        lemma_term_sum_self(s, n - 1);
        lemma_pixel_term_self(s[n - 1]);
    }
}

/// Partial sums do not depend on the order of the two rasters.
pub proof fn lemma_term_sum_symmetric(a: Seq<u8>, b: Seq<u8>, n: int)
    requires
        0 <= n <= a.len(),
        n <= b.len(),
    ensures
        term_sum_ppm(a, b, n) == term_sum_ppm(b, a, n),
    decreases n,
{
    if n > 0 {
        lemma_term_sum_symmetric(a, b, n - 1);
        lemma_pixel_term_symmetric(a[n - 1], b[n - 1]);
    }
}

/// Any non-empty raster compared with itself scores exactly one
/// (1_000_000 parts per million), whatever its contents.
pub proof fn lemma_self_similarity_is_one(img: LumaImage)
    requires
        img.wf(),
        img.pixels@.len() > 0,
    ensures
        spec_ssim_ppm(img, img) == 1000000,
{
    let n = (img.pixels@.len() as int);
    lemma_term_sum_self(img.pixels@, n);
    lemma_div_multiples_vanish(1000000, n);
    assert(n * 1000000 / n == 1000000);
}

/// The score does not depend on the order of the two rasters.
pub proof fn lemma_similarity_symmetric(a: LumaImage, b: LumaImage)
    requires
        a.pixels@.len() == b.pixels@.len(),
    ensures
        spec_ssim_ppm(a, b) == spec_ssim_ppm(b, a),
{
    lemma_term_sum_symmetric(a.pixels@, b.pixels@, a.pixels@.len() as int);
}

/// One per-pixel term, computed exactly.
fn pixel_term(p1: u8, p2: u8) -> (t: u64)
    ensures
        (t as int) == pixel_term_ppm(p1, p2),
        t <= 1000000,
{
    proof {
        lemma_pixel_term_bounds(p1, p2);
        assert((p1 as int) * (p2 as int) <= 65025 && (p1 as int) * (p1 as int) <= 65025 && (p2 as int)
            * (p2 as int) <= 65025) by (nonlinear_arith)
            requires
                (p1 as int) <= 255,
                (p2 as int) <= 255,
                (p1 as int) >= 0,
                (p2 as int) >= 0,
        ;
    }
    let a = p1 as u64;
    let b = p2 as u64;
    let cross = a * b;
    let squares = a * a + b * b;
    let num = (20000 * cross + 65025) * 1000000;
    let den = 10000 * squares + 65025;
    num / den
}

/// The in-process similarity of two rasters, in parts per million.
///
/// Pairs of mismatched dimensions are a hard error, never a guessed score;
/// an empty pair has no mean and is refused as well.
pub fn ssim_score_ppm(a: &LumaImage, b: &LumaImage) -> (r: Result<u64, ScoreError>)
    requires
        a.wf(),
        b.wf(),
    ensures
        r is Ok <==> (a.width == b.width && a.height == b.height && a.pixels@.len() > 0),
        r matches Ok(s) ==> (s as int) == spec_ssim_ppm(*a, *b) && s <= 1000000,
        (a.width != b.width || a.height != b.height) ==> r == Result::<u64, ScoreError>::Err(
            ScoreError::DimensionMismatch,
        ),
        (a.width == b.width && a.height == b.height && a.pixels@.len() == 0) ==> r == Result::<
            u64,
            ScoreError,
        >::Err(ScoreError::EmptyImage),
{
    if a.width != b.width || a.height != b.height {
        return Err(ScoreError::DimensionMismatch);
    }
    let n = a.pixels.len();
    if n == 0 {
        return Err(ScoreError::EmptyImage);
    }
    let mut acc: u128 = 0;
    let mut i: usize = 0;
    while i < n
        invariant
            a.wf(),
            b.wf(),
            a.width == b.width,
            a.height == b.height,
            n == a.pixels@.len(),
            n == b.pixels@.len(),
            i <= n,
            acc == term_sum_ppm(a.pixels@, b.pixels@, (i as int)),
            acc <= (i as int) * 1000000,
        decreases n - i,
    {
        let t = pixel_term(a.pixels[i], b.pixels[i]);
        proof {
            assert(acc + t <= ((i as int) + 1) * 1000000);
            assert(((i as int) + 1) * 1000000 <= ((u64::MAX as int) + 1) * 1000000);
        }
        acc = acc + t as u128;
        i += 1;
    }
    proof {
        lemma_term_sum_bounds(a.pixels@, b.pixels@, (n as int));
        lemma_div_is_ordered((acc as int), (n as int) * 1000000, (n as int));
        lemma_div_multiples_vanish(1000000, (n as int));
        assert((n as int) * 1000000 / (n as int) == 1000000);
        lemma_div_pos_is_pos((acc as int), (n as int));
    }
    let score = acc / n as u128;
    Ok(score as u64)
}

/// Relies on `image::open`, `DynamicImage::to_luma8`,
/// `ImageBuffer::dimensions` and `ImageBuffer::into_raw`: decodes the file at
/// `path` into a single-channel 8-bit luminance raster whose buffer holds
/// exactly `width * height` samples in row-major order. Returns `None` when
/// the file cannot be read or decoded; what comes back depends on what is on
/// disk, so nothing more is promised of it.
#[verifier::external_body]
fn load_luma(path: &str) -> (r: Option<LumaImage>)
    ensures
        r matches Some(img) ==> img.wf(),
{
    match image::open(path) {
        Ok(decoded) => {
            let gray = decoded.to_luma8();
            let (width, height) = gray.dimensions();
            Some(LumaImage { width, height, pixels: gray.into_raw() })
        },
        Err(_) => None,
    }
}

/// The in-process strategy over frame files: decode both images to luminance
/// and score them. A pair of mismatched dimensions is a hard error, as is a
/// frame that cannot be decoded; an `Ok` score is the exact fixed-point mean
/// per-pixel similarity of whatever rasters were decoded.
pub fn compare_frame_files(path_a: &str, path_b: &str) -> (r: Result<u64, ScoreError>)
    ensures
        r matches Ok(s) ==> s <= 1000000,
{
    let img_a = match load_luma(path_a) {
        Some(img) => img,
        None => {
            return Err(ScoreError::FirstUnreadable);
        },
    };
    let img_b = match load_luma(path_b) {
        Some(img) => img,
        None => {
            return Err(ScoreError::SecondUnreadable);
        },
    };
    ssim_score_ppm(&img_a, &img_b)
}

/// The fail-safe score of a frame pair: any pair that cannot be scored is
/// `0`, "not a duplicate", biasing the pipeline toward keeping frames.
pub fn score_frame_pair(path_a: &str, path_b: &str) -> (r: u64)
    ensures
        r <= 1000000,
{
    match compare_frame_files(path_a, path_b) {
        Ok(score) => score,
        Err(_) => 0,
    }
}

} // verus!
