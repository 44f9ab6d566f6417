//! The frame-ready handshake with the page runtime: what a seek reply and a
//! video-state report must hold before a frame may be sampled.
//!
//! The runtime answers in JSON. The shell side reads each reply into the
//! plain values below (numbers that JSON may carry as floats are compared
//! and formatted there); the decisions and the error texts are made here.

use vstd::prelude::*;

use crate::errors::RecordError;
use crate::project::json::{json_parse_failure, json_parse_problem};
use crate::text::{decimal, decimal_chars, framed_number, string_from_chars};

verus! {

/// The `t` field of a seek reply, as far as the handshake needs it.
#[derive(Debug, Clone)]
pub struct SeekTime {
    /// Whether the reported time lies within the tolerance of the time sent.
    pub within_tolerance: bool,
    /// The reported time, formatted for messages.
    pub received_text: String,
}

/// A seek reply of the runtime: `{ t, frameReady, seq }`.
#[derive(Debug, Clone)]
pub struct SeekReply {
    /// The reply is a JSON object.
    pub is_object: bool,
    /// `frameReady`, when it is a boolean.
    pub frame_ready: Option<bool>,
    /// `t`, when it is a number.
    pub t: Option<SeekTime>,
    /// `seq`, when it is a non-negative whole number.
    pub seq: Option<u64>,
    /// The reply as JSON text.
    pub text: String,
}

/// The reason a seek reply breaks the handshake, or `None` when it holds.
pub open spec fn frame_ready_fault(reply: SeekReply, expected: Seq<char>, min_seq_exclusive: Option<u64>) -> Option<Seq<char>> {
    if !reply.is_object {
        Some("expected object at expected_t="@ + expected + " · got: "@ + reply.text@)
    } else {
        match reply.frame_ready {
            None => Some("missing frameReady boolean at expected_t="@ + expected),
            Some(false) => Some("frameReady=false at expected_t="@ + expected),
            Some(true) => match reply.t {
                None => Some("missing t (f64) at expected_t="@ + expected),
                Some(t) => if !t.within_tolerance {
                    Some("t mismatch: sent "@ + expected + " got "@ + t.received_text@)
                } else {
                    match reply.seq {
                        None => Some("missing seq at expected_t="@ + expected),
                        Some(seq) => match min_seq_exclusive {
                            Some(min) => if seq <= min {
                                Some("stale seq: expected > "@ + decimal(min as nat) + " got "@
                                    + decimal(seq as nat) + " at expected_t="@ + expected)
                            } else {
                                None
                            },
                            None => None,
                        },
                    }
                },
            },
        }
    }
}

/// Checks a seek reply against the time sent (formatted as `expected`) and,
/// for the export bridge, the sequence number it must exceed.
pub fn verify_frame_ready(reply: &SeekReply, expected: &str, min_seq_exclusive: Option<u64>) -> (r: Result<(), RecordError>)
    ensures
        match frame_ready_fault(*reply, expected@, min_seq_exclusive) {
            None => r is Ok,
            Some(m) => r matches Err(RecordError::FrameReadyContract(msg)) && msg@ == m,
        },
{
    if !reply.is_object {
        let mut s = String::from_str("expected object at expected_t=");
        s.append(expected);
        s.append(" · got: ");
        s.append(reply.text.as_str());
        return Err(RecordError::FrameReadyContract(s));
    }
    match reply.frame_ready {
        None => {
            let mut s = String::from_str("missing frameReady boolean at expected_t=");
            s.append(expected);
            return Err(RecordError::FrameReadyContract(s));
        },
        Some(false) => {
            let mut s = String::from_str("frameReady=false at expected_t=");
            s.append(expected);
            return Err(RecordError::FrameReadyContract(s));
        },
        Some(true) => {},
    }
    match &reply.t {
        None => {
            let mut s = String::from_str("missing t (f64) at expected_t=");
            s.append(expected);
            return Err(RecordError::FrameReadyContract(s));
        },
        Some(t) => {
            if !t.within_tolerance {
                let mut s = String::from_str("t mismatch: sent ");
                s.append(expected);
                s.append(" got ");
                s.append(t.received_text.as_str());
                return Err(RecordError::FrameReadyContract(s));
            }
        },
    }
    match reply.seq {
        None => {
            let mut s = String::from_str("missing seq at expected_t=");
            s.append(expected);
            Err(RecordError::FrameReadyContract(s))
        },
        Some(seq) => match min_seq_exclusive {
            Some(min) => {
                if seq <= min {
                    let mut s = framed_number("stale seq: expected > ", min, " got ");
                    let d = decimal_chars(seq);
                    let ds = string_from_chars(d.as_slice());
                    s.append(ds.as_str());
                    s.append(" at expected_t=");
                    s.append(expected);
                    Err(RecordError::FrameReadyContract(s))
                } else {
                    Ok(())
                }
            },
            None => Ok(()),
        },
    }
}

/// One clip of a video-state report.
#[derive(Debug, Clone)]
pub struct ClipState {
    /// The clip entry is a JSON object.
    pub is_object: bool,
    /// `frame_ready`; false when absent or not a boolean.
    pub frame_ready: bool,
    /// `ready_state`; 0 when absent.
    pub ready_state: u64,
    /// `current_time_ms`, rounded; -1 when absent.
    pub current_time_ms: i64,
    /// The clip entry as JSON text.
    pub text: String,
}

/// A video-state report of the runtime: `{ count, clips: [...] }`.
#[derive(Debug, Clone)]
pub struct VideoState {
    /// The report is a JSON object.
    pub is_object: bool,
    /// `count`; 0 when absent.
    pub count: u64,
    /// `clips`, when it is an array.
    pub clips: Option<Vec<ClipState>>,
    /// The report as JSON text.
    pub text: String,
}

/// What a video-state report says of the frame at the target time.
#[derive(Debug, Clone, Copy, PartialEq, Eq)]
pub enum VideoStateVerdict {
    /// Every clip has decoded the frame at the target time.
    Ready,
    /// Some clip is still seeking or decoding.
    Waiting,
    /// The report is not an object.
    NotObject,
    /// The report counts clips but lists none.
    MissingClips,
    /// The clip at this position is not an object.
    ClipNotObject(usize),
}

/// A clip shows the frame at `target_ms`: it has a decoded frame, enough
/// data (`ready_state` at least 2) and stands within 80 ms of the target.
pub open spec fn clip_ready(c: ClipState, target_ms: i64) -> bool {
    &&& c.frame_ready
    &&& c.ready_state >= 2
    &&& -80 <= c.current_time_ms - target_ms <= 80
}

/// The verdict on the clips from position `i` on: the first clip that is not
/// an object or not ready decides; past the last one, all are ready.
pub open spec fn clips_verdict(clips: Seq<ClipState>, target_ms: i64, i: int) -> VideoStateVerdict
    decreases clips.len() - i,
{
    if i < 0 || i >= clips.len() {
        VideoStateVerdict::Ready
    } else if !clips[i].is_object {
        VideoStateVerdict::ClipNotObject(i as usize)
    } else if !clip_ready(clips[i], target_ms) {
        VideoStateVerdict::Waiting
    } else {
        clips_verdict(clips, target_ms, i + 1)
    }
}

/// The verdict on a whole report.
pub open spec fn video_state_verdict_of(state: VideoState, target_ms: i64) -> VideoStateVerdict {
    if !state.is_object {
        VideoStateVerdict::NotObject
    } else if state.count == 0 {
        VideoStateVerdict::Ready
    } else {
        match state.clips {
            None => VideoStateVerdict::MissingClips,
            Some(clips) => clips_verdict(clips@, target_ms, 0),
        }
    }
}

/// Reads a video-state report against the target time in milliseconds.
pub fn video_state_verdict(state: &VideoState, target_ms: i64) -> (v: VideoStateVerdict)
    ensures
        v == video_state_verdict_of(*state, target_ms),
        v matches VideoStateVerdict::ClipNotObject(i) ==> (state.clips is Some && i < state.clips.unwrap().len()),
{
    if !state.is_object {
        return VideoStateVerdict::NotObject;
    }
    if state.count == 0 {
        return VideoStateVerdict::Ready;
    }
    match &state.clips {
        None => VideoStateVerdict::MissingClips,
        Some(clips) => {
            let mut i: usize = 0;
            while i < clips.len()
                invariant
                    i <= clips.len(),
                    state.is_object,
                    state.count != 0,
                    state.clips == Some(*clips),
                    clips_verdict(clips@, target_ms, 0) == clips_verdict(clips@, target_ms, i as int),
                decreases clips.len() - i,
            {
                let c = &clips[i];
                if !c.is_object {
                    return VideoStateVerdict::ClipNotObject(i);
                }
                let gap: i128 = c.current_time_ms as i128 - target_ms as i128;
                if !c.frame_ready || c.ready_state < 2 || gap < -80 || gap > 80 {
                    return VideoStateVerdict::Waiting;
                }
                i = i + 1;
            }
            VideoStateVerdict::Ready
        },
    }
}

/// The record loop's reading of a video-state report: ready or not, or the
/// contract error for a malformed report (`expected` is the target time as
/// formatted for messages).
pub fn video_state_is_ready(state: &VideoState, target_ms: i64, expected: &str) -> (r: Result<bool, RecordError>)
    ensures
        match video_state_verdict_of(*state, target_ms) {
            VideoStateVerdict::Ready => r == Ok::<bool, RecordError>(true),
            VideoStateVerdict::Waiting => r == Ok::<bool, RecordError>(false),
            VideoStateVerdict::NotObject => r matches Err(RecordError::FrameReadyContract(m))
                && m@ == "video-state expected object at expected_t="@ + expected@ + " · got: "@ + state.text@,
            VideoStateVerdict::MissingClips => r matches Err(RecordError::FrameReadyContract(m))
                && m@ == "video-state missing clips at expected_t="@ + expected@ + " · payload="@ + state.text@,
            VideoStateVerdict::ClipNotObject(i) => {
                &&& state.clips matches Some(cs)
                &&& i < cs.len()
                &&& r matches Err(RecordError::FrameReadyContract(m))
                &&& m@ == "video-state clip not object at expected_t="@ + expected@ + " · payload="@
                    + state.clips.unwrap()@[i as int].text@
            },
        },
{
    match video_state_verdict(state, target_ms) {
        VideoStateVerdict::Ready => Ok(true),
        VideoStateVerdict::Waiting => Ok(false),
        VideoStateVerdict::NotObject => {
            let mut s = String::from_str("video-state expected object at expected_t=");
            s.append(expected);
            s.append(" · got: ");
            s.append(state.text.as_str());
            Err(RecordError::FrameReadyContract(s))
        },
        VideoStateVerdict::MissingClips => {
            let mut s = String::from_str("video-state missing clips at expected_t=");
            s.append(expected);
            s.append(" · payload=");
            s.append(state.text.as_str());
            Err(RecordError::FrameReadyContract(s))
        },
        VideoStateVerdict::ClipNotObject(i) => {
            let clips = state.clips.as_ref().unwrap();
            let mut s = String::from_str("video-state clip not object at expected_t=");
            s.append(expected);
            s.append(" · payload=");
            s.append(clips[i].text.as_str());
            Err(RecordError::FrameReadyContract(s))
        },
    }
}

/// A value handed back by the runtime: a string that itself holds JSON, or
/// any other JSON value (kept as its text).
#[derive(Debug, Clone)]
pub enum RuntimeReply {
    Text(String),
    Json(String),
}

/// The JSON text a runtime reply stands for, or the contract error for a
/// string that does not parse (`context` names the call in the message).
pub fn parse_json_result(raw: &RuntimeReply, context: &str) -> (r: Result<String, RecordError>)
    ensures
        match *raw {
            RuntimeReply::Json(t) => r matches Ok(v) && v@ == t@,
            RuntimeReply::Text(s) => match json_parse_problem(s@) {
                None => r matches Ok(v) && v@ == s@,
                Some(e) => r matches Err(RecordError::FrameReadyContract(m))
                    && m@ == context@ + " returned non-JSON string: "@ + e + " · raw="@ + s@,
            },
        },
{
    match raw {
        RuntimeReply::Json(t) => Ok(t.clone()),
        RuntimeReply::Text(s) => match json_parse_failure(s.as_str()) {
            None => Ok(s.clone()),
            Some(e) => {
                let mut m = String::from_str(context);
                m.append(" returned non-JSON string: ");
                m.append(e.as_str());
                m.append(" · raw=");
                m.append(s.as_str());
                Err(RecordError::FrameReadyContract(m))
            },
        },
    }
}

} // verus!
