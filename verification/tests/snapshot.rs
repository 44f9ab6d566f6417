use capy_core::errors::SnapshotError;
use capy_core::readiness::{ClipState, RuntimeReply, VideoState};
use capy_core::snapshot::{
    bgra_to_rgba, center_pixel, needs_fallback_capture, parse_seek_result, rgba_looks_black,
    video_state_is_ready, CommitStep, CommitWatch, MAX_COMMIT_RETRIES,
};

fn contract_message(r: Result<Vec<u8>, SnapshotError>) -> String {
    match r {
        Err(SnapshotError::FrameReadyContract(m)) => m,
        other => panic!("unexpected {other:?}"),
    }
}

#[test]
fn bgra_rows_become_tight_rgba() {
    // 2x2 surface, rows padded to 12 bytes.
    let src: Vec<u8> = vec![
        1, 2, 3, 4, 5, 6, 7, 8, 99, 99, 99, 99, //
        9, 10, 11, 12, 13, 14, 15, 16, 99, 99, 99, 99,
    ];
    let rgba = bgra_to_rgba(&src, 2, 2, 12).unwrap();
    assert_eq!(rgba, vec![3, 2, 1, 4, 7, 6, 5, 8, 11, 10, 9, 12, 15, 14, 13, 16]);
}

#[test]
fn bad_surface_shapes_are_refused() {
    assert_eq!(contract_message(bgra_to_rgba(&[], 0, 4, 0)), "IOSurface zero extent: 0x4");
    assert_eq!(contract_message(bgra_to_rgba(&[0; 8], 2, 1, 7)), "bytes_per_row (7) < width*4 (8)");
    assert_eq!(contract_message(bgra_to_rgba(&[], usize::MAX / 2, 1, 0)), format!("width overflow: {}", usize::MAX / 2));
    let w = usize::MAX / 8;
    assert_eq!(contract_message(bgra_to_rgba(&[], w, 3, 0)), format!("bytes_per_row (0) < width*4 ({})", w * 4));
}

#[test]
fn black_detection_samples_lit_pixels() {
    assert!(!rgba_looks_black(&[0, 0, 0]));
    assert!(rgba_looks_black(&[0, 0, 0, 255, 10, 10, 4, 255]));
    assert!(!rgba_looks_black(&[0, 0, 0, 255, 10, 10, 5, 255]));
    // Bright but nearly transparent pixels do not count.
    assert!(rgba_looks_black(&[255, 255, 255, 8]));
    // Large raster: 8192 pixels are sampled every second pixel.
    let mut big = vec![0u8; 8192 * 4];
    big[4 * 1 + 0] = 255;
    big[4 * 1 + 3] = 255;
    assert!(rgba_looks_black(&big));
    big[4 * 2 + 0] = 255;
    big[4 * 2 + 3] = 255;
    assert!(!rgba_looks_black(&big));
}

#[test]
fn center_pixel_reads_middle_of_surface() {
    let mut src = vec![0u8; 3 * 16];
    let o = 1 * 16 + 1 * 4;
    src[o..o + 4].copy_from_slice(&[1, 2, 3, 4]);
    assert_eq!(center_pixel(&src, 3, 3, 16), (1, 2, 3, 4));
    assert_eq!(center_pixel(&[], 0, 3, 16), (0, 0, 0, 0));
}

#[test]
fn commit_needs_two_equal_nonzero_centres() {
    let mut w = CommitWatch::new();
    assert_eq!(w.observe((0, 0, 0, 0)), CommitStep::Resample);
    assert_eq!(w.observe((0, 0, 0, 0)), CommitStep::Resample);
    assert_eq!(w.observe((1, 2, 3, 4)), CommitStep::Resample);
    assert_eq!(w.observe((1, 2, 3, 4)), CommitStep::Committed);
}

#[test]
fn commit_wait_gives_up_after_budget() {
    let mut w = CommitWatch::new();
    let mut steps = Vec::new();
    for i in 0..MAX_COMMIT_RETRIES {
        steps.push(w.observe((i as u8, 0, 0, 255)));
    }
    assert_eq!(steps.iter().filter(|s| **s == CommitStep::Resample).count(), MAX_COMMIT_RETRIES as usize - 1);
    assert_eq!(steps.last(), Some(&CommitStep::GiveUp));
}

#[test]
fn fallback_only_for_large_black_captures() {
    assert!(needs_fallback_capture(7680, 4320, true));
    assert!(!needs_fallback_capture(7680, 4320, false));
    assert!(!needs_fallback_capture(3840, 2160, true));
    assert!(!needs_fallback_capture(4096, 4096, true));
    assert!(needs_fallback_capture(4097, 4096, true));
}

#[test]
fn snapshot_video_state_messages_name_t_ms() {
    let state = VideoState { is_object: false, count: 0, clips: None, text: "null".to_string() };
    match video_state_is_ready(&state, 250) {
        Err(SnapshotError::FrameReadyContract(m)) => assert_eq!(m, "video-state expected object at t_ms=250 · got null"),
        other => panic!("unexpected {other:?}"),
    }
    let clip = ClipState { is_object: true, frame_ready: true, ready_state: 3, current_time_ms: 300, text: "{}".to_string() };
    let state = VideoState { is_object: true, count: 1, clips: Some(vec![clip]), text: "{}".to_string() };
    assert!(matches!(video_state_is_ready(&state, 250), Ok(true)));
    assert!(matches!(video_state_is_ready(&state, 219), Ok(false)));
}

#[test]
fn snapshot_seek_strings_must_hold_json() {
    assert!(matches!(parse_seek_result(&RuntimeReply::Text("nope".to_string())), Err(SnapshotError::FrameReadyContract(_))));
    assert_eq!(parse_seek_result(&RuntimeReply::Text("[1,2]".to_string())).unwrap(), "[1,2]");
}
