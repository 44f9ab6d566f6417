use capy_core::errors::RecordError;
use capy_core::readiness::{
    parse_json_result, verify_frame_ready, video_state_is_ready, video_state_verdict, ClipState,
    RuntimeReply, SeekReply, SeekTime, VideoState, VideoStateVerdict,
};

/// Reads a runtime reply the way the recorder does before the check.
fn seek_reply(payload: &str, expected_t: f64) -> SeekReply {
    let v: serde_json::Value = serde_json::from_str(payload).expect("payload parses");
    SeekReply {
        is_object: v.is_object(),
        frame_ready: v.get("frameReady").and_then(serde_json::Value::as_bool),
        t: v.get("t").and_then(serde_json::Value::as_f64).map(|t| SeekTime {
            within_tolerance: (t - expected_t).abs() <= 0.01,
            received_text: format!("{t:.6}"),
        }),
        seq: v.get("seq").and_then(serde_json::Value::as_u64),
        text: v.to_string(),
    }
}

fn clip_state(clip: &serde_json::Value) -> ClipState {
    ClipState {
        is_object: clip.is_object(),
        frame_ready: clip.get("frame_ready").and_then(serde_json::Value::as_bool).unwrap_or(false),
        ready_state: clip.get("ready_state").and_then(serde_json::Value::as_u64).unwrap_or(0),
        current_time_ms: clip.get("current_time_ms").and_then(serde_json::Value::as_i64).unwrap_or(-1),
        text: clip.to_string(),
    }
}

fn video_state(payload: &str) -> VideoState {
    let v: serde_json::Value = serde_json::from_str(payload).expect("payload parses");
    VideoState {
        is_object: v.is_object(),
        count: v.get("count").and_then(serde_json::Value::as_u64).unwrap_or(0),
        clips: v.get("clips").and_then(serde_json::Value::as_array).map(|cs| cs.iter().map(clip_state).collect()),
        text: v.to_string(),
    }
}

fn frame_ready_false(expected: f64) {
    let payload = seek_reply(r#"{"t": 0, "frameReady": false, "seq": 0}"#, expected);
    let result = verify_frame_ready(&payload, &format!("{expected:.6}"), None);
    assert!(matches!(result, Err(RecordError::FrameReadyContract(_))));
}

fn missing_seq(expected: f64) {
    let payload = seek_reply(r#"{"t": 0, "frameReady": true}"#, expected);
    let result = verify_frame_ready(&payload, &format!("{expected:.6}"), None);
    assert!(matches!(result, Err(RecordError::FrameReadyContract(_))));
}

fn t_out_of_tolerance(expected: f64) {
    let payload = seek_reply(r#"{"t": 100, "frameReady": true, "seq": 1}"#, expected);
    let result = verify_frame_ready(&payload, &format!("{expected:.6}"), None);
    assert!(matches!(result, Err(RecordError::FrameReadyContract(_))));
}

fn malformed_json() {
    let raw = RuntimeReply::Text("{not json".to_string());
    let result = parse_json_result(&raw, "seek result");
    assert!(matches!(result, Err(RecordError::FrameReadyContract(_))));
}

fn stale_seq(expected: f64) {
    let payload = seek_reply(r#"{"t": 0, "frameReady": true, "seq": 3}"#, expected);
    let result = verify_frame_ready(&payload, &format!("{expected:.6}"), Some(5));
    assert!(matches!(result, Err(RecordError::FrameReadyContract(_))));
}

fn malformed_video_state() {
    let payload = video_state(r#"{"count": 1, "clips": {"bad": true}}"#);
    let result = video_state_is_ready(&payload, 0, "0.000000");
    assert!(matches!(result, Err(RecordError::FrameReadyContract(_))));
}

#[test]
fn record_loop_seek_result_frame_ready_false_rejected() {
    frame_ready_false(0.0);
}

#[test]
fn record_loop_seek_result_missing_seq_rejected() {
    missing_seq(0.0);
}

#[test]
fn record_loop_seek_result_t_out_of_tolerance_rejected() {
    t_out_of_tolerance(0.0);
}

#[test]
fn record_loop_parse_json_result_malformed_rejected() {
    malformed_json();
}

#[test]
fn record_loop_seek_result_stale_seq_rejected() {
    stale_seq(0.0);
}

#[test]
fn record_loop_video_state_malformed_timeout() {
    malformed_video_state();
}

#[test]
fn readiness_seek_result_frame_ready_false_rejected() {
    frame_ready_false(0.0);
}

#[test]
fn readiness_seek_result_missing_seq_rejected() {
    missing_seq(0.0);
}

#[test]
fn readiness_seek_result_t_out_of_tolerance_rejected() {
    t_out_of_tolerance(0.0);
}

#[test]
fn readiness_parse_json_result_malformed_rejected() {
    malformed_json();
}

#[test]
fn readiness_seek_result_stale_seq_rejected() {
    stale_seq(0.0);
}

#[test]
fn readiness_video_state_malformed_timeout() {
    malformed_video_state();
}

#[test]
fn seek_errors_carry_exact_messages() {
    let not_object = seek_reply("[1]", 0.0);
    match verify_frame_ready(&not_object, "0.000000", None) {
        Err(e) => assert_eq!(e.message(), "frameReady contract violation: expected object at expected_t=0.000000 · got: [1]"),
        Ok(()) => panic!("array accepted"),
    }
    let mismatch = seek_reply(r#"{"t": 100, "frameReady": true, "seq": 1}"#, 0.0);
    match verify_frame_ready(&mismatch, "0.000000", None) {
        Err(RecordError::FrameReadyContract(m)) => assert_eq!(m, "t mismatch: sent 0.000000 got 100.000000"),
        other => panic!("unexpected {other:?}"),
    }
    let stale = seek_reply(r#"{"t": 0, "frameReady": true, "seq": 3}"#, 0.0);
    match verify_frame_ready(&stale, "0.000000", Some(5)) {
        Err(RecordError::FrameReadyContract(m)) => assert_eq!(m, "stale seq: expected > 5 got 3 at expected_t=0.000000"),
        other => panic!("unexpected {other:?}"),
    }
    let missing_t = seek_reply(r#"{"frameReady": true, "seq": 1}"#, 0.0);
    match verify_frame_ready(&missing_t, "0.000000", None) {
        Err(RecordError::FrameReadyContract(m)) => assert_eq!(m, "missing t (f64) at expected_t=0.000000"),
        other => panic!("unexpected {other:?}"),
    }
}

#[test]
fn fresh_seek_reply_is_accepted() {
    let ok = seek_reply(r#"{"t": 33.333333, "frameReady": true, "seq": 6}"#, 33.333333);
    assert!(verify_frame_ready(&ok, "33.333333", Some(5)).is_ok());
    assert!(verify_frame_ready(&ok, "33.333333", None).is_ok());
}

#[test]
fn video_state_waits_for_every_clip() {
    let none = video_state(r#"{"count": 0, "clips": []}"#);
    assert_eq!(video_state_verdict(&none, 500), VideoStateVerdict::Ready);
    let ready = video_state(
        r#"{"count": 2, "clips": [
            {"frame_ready": true, "ready_state": 4, "current_time_ms": 480},
            {"frame_ready": true, "ready_state": 2, "current_time_ms": 580}]}"#,
    );
    assert!(matches!(video_state_is_ready(&ready, 500, "500.000000"), Ok(true)));
    let far = video_state(r#"{"count": 1, "clips": [{"frame_ready": true, "ready_state": 4, "current_time_ms": 581}]}"#);
    assert!(matches!(video_state_is_ready(&far, 500, "500.000000"), Ok(false)));
    let loading = video_state(r#"{"count": 1, "clips": [{"frame_ready": true, "ready_state": 1, "current_time_ms": 500}]}"#);
    assert_eq!(video_state_verdict(&loading, 500), VideoStateVerdict::Waiting);
    let odd = video_state(r#"{"count": 2, "clips": [{"frame_ready": true, "ready_state": 4, "current_time_ms": 500}, 7]}"#);
    assert_eq!(video_state_verdict(&odd, 500), VideoStateVerdict::ClipNotObject(1));
    match video_state_is_ready(&odd, 500, "500.000000") {
        Err(RecordError::FrameReadyContract(m)) => assert_eq!(m, "video-state clip not object at expected_t=500.000000 · payload=7"),
        other => panic!("unexpected {other:?}"),
    }
}

#[test]
fn json_strings_are_parsed_and_values_pass_through() {
    let text = RuntimeReply::Text(r#"{"t":0}"#.to_string());
    assert_eq!(parse_json_result(&text, "seek result").unwrap(), r#"{"t":0}"#);
    let value = RuntimeReply::Json("true".to_string());
    assert_eq!(parse_json_result(&value, "seek result").unwrap(), "true");
    match parse_json_result(&RuntimeReply::Text("{not json".to_string()), "seek result") {
        Err(RecordError::FrameReadyContract(m)) => {
            assert!(m.starts_with("seek result returned non-JSON string: "));
            assert!(m.ends_with(" · raw={not json"));
        },
        other => panic!("unexpected {other:?}"),
    }
}
