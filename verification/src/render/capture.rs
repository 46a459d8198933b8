//! Decisions around capturing one slide: whether a decoded frame is the
//! pure-white flake that headless browsers emit under load, and whether an
//! attempt is retried, accepted or given up.
use crate::render::pipeline::CAPTURE_ATTEMPTS;
use vstd::prelude::*;

verus! {

/// The blank detector samples at most this many columns and rows.
pub const BLANK_SAMPLES: u32 = 64;

/// Distance between sampled columns (or rows) of an image `n` pixels wide (or high).
pub open spec fn sample_step(n: u32) -> int {
    if n / BLANK_SAMPLES >= 1 {
        (n / BLANK_SAMPLES) as int
    } else {
        1
    }
}

/// Byte offset of pixel `(x, y)` in a row-major RGBA buffer `width` pixels wide.
pub open spec fn pixel_offset(width: int, x: int, y: int) -> int {
    (y * width + x) * 4
}

/// All four channels at `at` are at least 250.
pub open spec fn near_white(rgba: Seq<u8>, at: int) -> bool {
    &&& rgba[at] >= 250
    &&& rgba[at + 1] >= 250
    &&& rgba[at + 2] >= 250
    &&& rgba[at + 3] >= 250
}

/// `a` and `b` differ by at most 2.
pub open spec fn within_two(a: u8, b: u8) -> bool {
    a - b <= 2 && b - a <= 2
}

/// Every channel of the pixel at `at` is within 2 of the same channel at `origin`.
pub open spec fn pixels_close(rgba: Seq<u8>, origin: int, at: int) -> bool {
    &&& within_two(rgba[origin], rgba[at])
    &&& within_two(rgba[origin + 1], rgba[at + 1])
    &&& within_two(rgba[origin + 2], rgba[at + 2])
    &&& within_two(rgba[origin + 3], rgba[at + 3])
}

/// The sample in grid column `i` and row `j` is near white and close to the
/// first sample, the pixel at the origin.
pub open spec fn sample_ok(rgba: Seq<u8>, width: u32, height: u32, i: int, j: int) -> bool {
    let at = pixel_offset(width as int, i * sample_step(width), j * sample_step(height));
    near_white(rgba, at) && pixels_close(rgba, 0, at)
}

/// A capture is blank when it is empty, or when every sampled pixel is near
/// white and close to the first one.
pub open spec fn is_blank_capture(width: u32, height: u32, rgba: Seq<u8>) -> bool {
    width == 0 || height == 0 || forall|i: int, j: int|
        0 <= i && 0 <= j && i * sample_step(width) < width && j * sample_step(height) < height
            ==> #[trigger] sample_ok(rgba, width, height, i, j)
}

proof fn lemma_offset_in_bounds(w: int, h: int, x: int, y: int)
    requires
        0 <= x < w,
        0 <= y < h,
    ensures
        0 <= pixel_offset(w, x, y),
        pixel_offset(w, x, y) + 4 <= 4 * w * h,
{
    assert(0 <= y * w + x) by (nonlinear_arith)
        requires
            0 <= x < w,
            0 <= y < h,
    ;
    assert((y * w + x) * 4 + 4 <= 4 * w * h) by (nonlinear_arith)
        requires
            0 <= x < w,
            0 <= y < h,
    ;
}

proof fn lemma_past_the_end(i: int, k: int, step: int, n: int)
    requires
        0 <= i <= k,
        step >= 1,
        i * step >= n,
    ensures
        k * step >= n,
{
    assert(k * step >= i * step) by (nonlinear_arith)
        requires
            0 <= i <= k,
            step >= 1,
    ;
}

fn channel_close(a: u8, b: u8) -> (r: bool)
    ensures
        r == within_two(a, b),
{
    if a >= b {
        a - b <= 2
    } else {
        b - a <= 2
    }
}

/// True when every sampled pixel of the row-major RGBA buffer is essentially
/// the same near-white colour; used only to retry flaky captures.
pub fn image_is_blank_capture(width: u32, height: u32, rgba: &Vec<u8>) -> (blank: bool)
    requires
        rgba.len() == 4 * width * height,
    ensures
        blank == is_blank_capture(width, height, rgba@),
{
    if width == 0 || height == 0 {
        return true;
    }
    let step_x: u64 = if width / BLANK_SAMPLES >= 1 { (width / BLANK_SAMPLES) as u64 } else { 1 };
    let step_y: u64 = if height / BLANK_SAMPLES >= 1 { (height / BLANK_SAMPLES) as u64 } else { 1 };
    let w: u64 = width as u64;
    let h: u64 = height as u64;
    let ghost sx = sample_step(width);
    let ghost sy = sample_step(height);
    assert(rgba.len() >= 4) by (nonlinear_arith)
        requires
            rgba.len() == 4 * width * height,
            width >= 1,
            height >= 1,
    ;
    let mut j: u64 = 0;
    let mut y: u64 = 0;
    while y < h
        invariant
            w == width,
            h == height,
            width >= 1,
            height >= 1,
            rgba.len() == 4 * width * height,
            step_x == sx,
            step_y == sy,
            sx == sample_step(width),
            sy == sample_step(height),
            1 <= sx <= width,
            1 <= sy <= height,
            y == j * sy,
            y <= h + sy,
            j <= y,
            forall|i: int, jj: int|
                0 <= i && 0 <= jj < j && i * sx < width && jj * sy < height
                    ==> #[trigger] sample_ok(rgba@, width, height, i, jj),
        decreases h + step_y - y,
    {
        let mut i: u64 = 0;
        let mut x: u64 = 0;
        while x < w
            invariant
                w == width,
                h == height,
                width >= 1,
                height >= 1,
                rgba.len() == 4 * width * height,
                step_x == sx,
                step_y == sy,
                sx == sample_step(width),
                sy == sample_step(height),
                1 <= sx <= width,
                1 <= sy <= height,
                y == j * sy,
                y < h,
                x == i * sx,
                x <= w + sx,
                i <= x,
                forall|ii: int| 0 <= ii < i && ii * sx < width ==> #[trigger] sample_ok(rgba@, width, height, ii, j as int),
            decreases w + step_x - x,
        {
            proof {
                lemma_offset_in_bounds(width as int, height as int, x as int, y as int);
            }
            let at: usize = ((y * w + x) * 4) as usize;
            let near = rgba[at] >= 250 && rgba[at + 1] >= 250 && rgba[at + 2] >= 250 && rgba[at + 3] >= 250;
            let close = channel_close(rgba[0], rgba[at]) && channel_close(rgba[1], rgba[at + 1])
                && channel_close(rgba[2], rgba[at + 2]) && channel_close(rgba[3], rgba[at + 3]);
            assert(at == pixel_offset(width as int, i * sx, j * sy));
            if !(near && close) {
                assert(!sample_ok(rgba@, width, height, i as int, j as int));
                return false;
            }
            i = i + 1;
            x = x + step_x;
            assert(x == i * sx) by (nonlinear_arith)
                requires
                    x == (i - 1) * sx + sx,
            ;
        }
        assert forall|ii: int| 0 <= ii && ii * sx < width implies #[trigger] sample_ok(rgba@, width, height, ii, j as int) by {
            if ii >= i {
                lemma_past_the_end(i as int, ii, sx, width as int);
            }
        }
        j = j + 1;
        y = y + step_y;
        assert(y == j * sy) by (nonlinear_arith)
            requires
                y == (j - 1) * sy + sy,
        ;
    }
    assert forall|i: int, jj: int|
        0 <= i && 0 <= jj && i * sx < width && jj * sy < height implies #[trigger] sample_ok(rgba@, width, height, i, jj) by {
        if jj >= j {
            lemma_past_the_end(j as int, jj, sy, height as int);
        }
    }
    true
}

/// What one capture attempt produced.
#[derive(Clone, Copy, Debug, PartialEq, Eq, Structural)]
pub enum AttemptOutcome {
    /// The browser failed, or its output was not a PNG or did not decode.
    Failed,
    /// The decoded image has a zero width or height.
    EmptyDimensions,
    /// An image was decoded; `blank` is the blank detector's verdict on it.
    Decoded { blank: bool },
}

/// What the capture loop does after an attempt.
#[derive(Clone, Copy, Debug, PartialEq, Eq, Structural)]
pub enum AttemptVerdict {
    /// Keep the decoded image.
    Accept,
    /// Try again.
    Retry,
    /// The attempts are spent; the slide fails with the last error.
    GiveUp,
}

/// A decoded image is kept unless it is blank and attempts remain; anything
/// else is retried while attempts remain.
pub open spec fn verdict_of(attempt: u32, outcome: AttemptOutcome) -> AttemptVerdict {
    match outcome {
        AttemptOutcome::Decoded { blank } => if blank && attempt < CAPTURE_ATTEMPTS {
            AttemptVerdict::Retry
        } else {
            AttemptVerdict::Accept
        },
        _ => if attempt < CAPTURE_ATTEMPTS {
            AttemptVerdict::Retry
        } else {
            AttemptVerdict::GiveUp
        },
    }
}

/// The verdict on attempt `attempt` (counted from 1).
pub fn next_attempt(attempt: u32, outcome: AttemptOutcome) -> (v: AttemptVerdict)
    requires
        1 <= attempt <= CAPTURE_ATTEMPTS,
    ensures
        v == verdict_of(attempt, outcome),
{
    match outcome {
        AttemptOutcome::Decoded { blank } => if blank && attempt < CAPTURE_ATTEMPTS {
            AttemptVerdict::Retry
        } else {
            AttemptVerdict::Accept
        },
        _ => if attempt < CAPTURE_ATTEMPTS {
            AttemptVerdict::Retry
        } else {
            AttemptVerdict::GiveUp
        },
    }
}

/// The capture loop ends: the last attempt is never retried, and a decoded
/// image on the last attempt is kept even when it looks blank.
pub proof fn lemma_last_attempt_ends_the_loop(outcome: AttemptOutcome)
    ensures
        verdict_of(CAPTURE_ATTEMPTS, outcome) != AttemptVerdict::Retry,
        outcome is Decoded ==> verdict_of(CAPTURE_ATTEMPTS, outcome) == AttemptVerdict::Accept,
{
}

/// A frame the detector does not judge blank is kept on any attempt.
pub proof fn lemma_content_is_never_retried(attempt: u32)
    ensures
        verdict_of(attempt, AttemptOutcome::Decoded { blank: false }) == AttemptVerdict::Accept,
{
}

/// Why a pipeline or capture setting was refused.
#[derive(Clone, Copy, Debug, PartialEq, Eq, Structural)]
pub enum CaptureLimitError {
    /// Render concurrency outside 1..=32.
    Concurrency,
    /// Slide count outside 1..=10000.
    SlideCount,
    /// Capture width or height outside 1..=16384.
    Dimensions,
    /// A capture timeout under one millisecond.
    Timeout,
}

/// Most slides rendered at once.
pub const MAX_RENDER_CONCURRENCY: usize = 32;

/// Most slides in one rendered deck.
pub const MAX_RENDER_SLIDES: u32 = 10000;

/// Largest capture width or height in CSS pixels.
pub const MAX_CAPTURE_DIMENSION: u32 = 16384;

/// Render concurrency must be between 1 and 32.
pub fn check_concurrency(max_concurrency: usize) -> (r: Result<(), CaptureLimitError>)
    ensures
        r is Ok <==> 1 <= max_concurrency <= MAX_RENDER_CONCURRENCY,
        r is Err ==> r == Err::<(), CaptureLimitError>(CaptureLimitError::Concurrency),
{
    if max_concurrency == 0 || max_concurrency > MAX_RENDER_CONCURRENCY {
        Err(CaptureLimitError::Concurrency)
    } else {
        Ok(())
    }
}

/// A deck render needs between 1 and 10000 slides.
pub fn check_slide_count(slide_count: u32) -> (r: Result<(), CaptureLimitError>)
    ensures
        r is Ok <==> 1 <= slide_count <= MAX_RENDER_SLIDES,
        r is Err ==> r == Err::<(), CaptureLimitError>(CaptureLimitError::SlideCount),
{
    if slide_count == 0 || slide_count > MAX_RENDER_SLIDES {
        Err(CaptureLimitError::SlideCount)
    } else {
        Ok(())
    }
}

/// The integer part of capture validation: both dimensions in 1..=16384 and a
/// timeout of at least one millisecond, dimensions checked first.
pub fn check_capture_bounds(width: u32, height: u32, timeout_millis: u128) -> (r: Result<(), CaptureLimitError>)
    ensures
        r == (if width == 0 || height == 0 || width > MAX_CAPTURE_DIMENSION || height > MAX_CAPTURE_DIMENSION {
            Err(CaptureLimitError::Dimensions)
        } else if timeout_millis == 0 {
            Err(CaptureLimitError::Timeout)
        } else {
            Ok(())
        }),
{
    if width == 0 || height == 0 || width > MAX_CAPTURE_DIMENSION || height > MAX_CAPTURE_DIMENSION {
        Err(CaptureLimitError::Dimensions)
    } else if timeout_millis == 0 {
        Err(CaptureLimitError::Timeout)
    } else {
        Ok(())
    }
}

} // verus!
