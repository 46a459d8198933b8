use slide_builder::render::capture::{
    check_capture_bounds, check_concurrency, check_slide_count, image_is_blank_capture, next_attempt,
    AttemptOutcome, AttemptVerdict, CaptureLimitError,
};

fn filled(width: u32, height: u32, pixel: [u8; 4]) -> Vec<u8> {
    let mut rgba = Vec::new();
    for _ in 0..(width * height) {
        rgba.extend_from_slice(&pixel);
    }
    rgba
}

fn put_pixel(rgba: &mut [u8], width: u32, x: u32, y: u32, pixel: [u8; 4]) {
    let at = ((y * width + x) * 4) as usize;
    rgba[at..at + 4].copy_from_slice(&pixel);
}

#[test]
fn blank_detector_accepts_uniform_white_and_rejects_color() {
    let white = filled(32, 32, [255, 255, 255, 255]);
    assert!(image_is_blank_capture(32, 32, &white));
    let mut colored = filled(32, 32, [255, 255, 255, 255]);
    put_pixel(&mut colored, 32, 8, 8, [253, 184, 19, 255]);
    assert!(!image_is_blank_capture(32, 32, &colored));
}

#[test]
fn blank_detector_tolerates_small_differences_only() {
    let mut nearly = filled(16, 16, [255, 255, 255, 255]);
    put_pixel(&mut nearly, 16, 3, 5, [253, 254, 255, 253]);
    assert!(image_is_blank_capture(16, 16, &nearly));
    let mut off_white = filled(16, 16, [255, 255, 255, 255]);
    put_pixel(&mut off_white, 16, 3, 5, [251, 255, 255, 255]);
    assert!(!image_is_blank_capture(16, 16, &off_white));
    let grey = filled(4, 4, [200, 200, 200, 255]);
    assert!(!image_is_blank_capture(4, 4, &grey));
    assert!(image_is_blank_capture(0, 7, &Vec::new()));
}

#[test]
fn blank_detector_only_reads_sampled_pixels() {
    // 128 pixels wide: every second column is sampled.
    let mut image = filled(128, 2, [255, 255, 255, 255]);
    put_pixel(&mut image, 128, 1, 0, [0, 0, 0, 255]);
    assert!(image_is_blank_capture(128, 2, &image));
    put_pixel(&mut image, 128, 2, 1, [0, 0, 0, 255]);
    assert!(!image_is_blank_capture(128, 2, &image));
}

#[test]
fn blank_frames_are_retried_until_the_last_attempt() {
    let blank = AttemptOutcome::Decoded { blank: true };
    assert_eq!(next_attempt(1, blank), AttemptVerdict::Retry);
    assert_eq!(next_attempt(2, blank), AttemptVerdict::Retry);
    assert_eq!(next_attempt(3, blank), AttemptVerdict::Accept);
    assert_eq!(next_attempt(1, AttemptOutcome::Decoded { blank: false }), AttemptVerdict::Accept);
    assert_eq!(next_attempt(2, AttemptOutcome::Failed), AttemptVerdict::Retry);
    assert_eq!(next_attempt(3, AttemptOutcome::Failed), AttemptVerdict::GiveUp);
    assert_eq!(next_attempt(3, AttemptOutcome::EmptyDimensions), AttemptVerdict::GiveUp);
}

#[test]
fn pipeline_and_capture_limits() {
    assert_eq!(check_concurrency(0), Err(CaptureLimitError::Concurrency));
    assert!(check_concurrency(1).is_ok());
    assert!(check_concurrency(32).is_ok());
    assert_eq!(check_concurrency(33), Err(CaptureLimitError::Concurrency));
    assert_eq!(check_slide_count(0), Err(CaptureLimitError::SlideCount));
    assert!(check_slide_count(10_000).is_ok());
    assert_eq!(check_slide_count(10_001), Err(CaptureLimitError::SlideCount));
    assert!(check_capture_bounds(1280, 720, 30_000).is_ok());
    assert_eq!(check_capture_bounds(0, 720, 30_000), Err(CaptureLimitError::Dimensions));
    assert_eq!(check_capture_bounds(16_385, 720, 0), Err(CaptureLimitError::Dimensions));
    assert_eq!(check_capture_bounds(16_384, 16_384, 0), Err(CaptureLimitError::Timeout));
}
