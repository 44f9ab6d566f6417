//! Recorder error kinds, their stable codes and process exit codes.

use vstd::prelude::*;
use crate::mp4::verdict::lit;
use crate::text::{decimal, decimal_chars, push_char, string_from_chars};

verus! {

/// Fatal errors of a recording job.
#[derive(Debug, Clone)]
pub enum RecordError {
    CARendererInitFailed(String),
    VtEncoderFailed(String),
    WriterSessionFailed(String),
    FrameReadyTimeout(String),
    FrameReadyContract(String),
    ShellError(String),
    PipelineError(String),
    BundleLoadFailed(String),
    NoFrames,
    UnsupportedPlatform(String),
}

pub open spec fn record_code(e: RecordError) -> Seq<char> {
    match e {
        RecordError::CARendererInitFailed(_) => "CARENDERER_INIT_FAILED"@,
        RecordError::VtEncoderFailed(_) => "VT_ENCODER_FAILED"@,
        RecordError::WriterSessionFailed(_) => "WRITER_SESSION_FAILED"@,
        RecordError::FrameReadyTimeout(_) => "FRAME_READY_TIMEOUT"@,
        RecordError::FrameReadyContract(_) => "FRAME_READY_CONTRACT"@,
        RecordError::ShellError(_) => "SHELL_ERROR"@,
        RecordError::PipelineError(_) => "PIPELINE_ERROR"@,
        RecordError::BundleLoadFailed(_) => "BUNDLE_LOAD_FAILED"@,
        RecordError::NoFrames => "NO_FRAMES"@,
        RecordError::UnsupportedPlatform(_) => "UNSUPPORTED_PLATFORM"@,
    }
}

/// Exit codes: 1 user error (bundle), 3 environment, 2 everything internal.
pub open spec fn record_exit(e: RecordError) -> u8 {
    match e {
        RecordError::BundleLoadFailed(_) => 1,
        RecordError::UnsupportedPlatform(_) => 3,
        _ => 2,
    }
}

impl RecordError {
    /// The enum-string code used in the `error` event.
    pub fn code_str(&self) -> (s: &'static str)
        ensures
            s@ == record_code(*self),
    {
        match self {
            RecordError::CARendererInitFailed(_) => "CARENDERER_INIT_FAILED",
            RecordError::VtEncoderFailed(_) => "VT_ENCODER_FAILED",
            RecordError::WriterSessionFailed(_) => "WRITER_SESSION_FAILED",
            RecordError::FrameReadyTimeout(_) => "FRAME_READY_TIMEOUT",
            RecordError::FrameReadyContract(_) => "FRAME_READY_CONTRACT",
            RecordError::ShellError(_) => "SHELL_ERROR",
            RecordError::PipelineError(_) => "PIPELINE_ERROR",
            RecordError::BundleLoadFailed(_) => "BUNDLE_LOAD_FAILED",
            RecordError::NoFrames => "NO_FRAMES",
            RecordError::UnsupportedPlatform(_) => "UNSUPPORTED_PLATFORM",
        }
    }

    /// The process exit code.
    pub fn exit_code(&self) -> (c: u8)
        ensures
            c == record_exit(*self),
    {
        match self {
            RecordError::BundleLoadFailed(_) => 1,
            RecordError::UnsupportedPlatform(_) => 3,
            _ => 2,
        }
    }

    /// Maps an encoder pipeline failure to the record error it surfaces as.
    pub fn from_pipeline(e: PipelineError) -> (r: RecordError)
        ensures
            match e {
                PipelineError::EncoderInitFailed => r matches RecordError::VtEncoderFailed(m)
                    && m@ == "encoder init failed"@,
                PipelineError::WriterSessionFailed => r matches RecordError::WriterSessionFailed(
                    m,
                ) && m@ == "writer session failed"@,
                PipelineError::FrameOutOfOrder => r matches RecordError::PipelineError(m) && m@
                    == "frame out of order"@,
                PipelineError::Timeout => r matches RecordError::FrameReadyTimeout(m) && m@
                    == "pipeline internal timeout"@,
                PipelineError::IoError(s) => r matches RecordError::PipelineError(m) && m@ == s@,
            },
    {
        match e {
            PipelineError::EncoderInitFailed => RecordError::VtEncoderFailed(
                lit("encoder init failed"),
            ),
            PipelineError::WriterSessionFailed => RecordError::WriterSessionFailed(
                lit("writer session failed"),
            ),
            PipelineError::FrameOutOfOrder => RecordError::PipelineError(lit("frame out of order")),
            PipelineError::Timeout => RecordError::FrameReadyTimeout(
                lit("pipeline internal timeout"),
            ),
            PipelineError::IoError(m) => RecordError::PipelineError(m),
        }
    }
}

/// Failures of the encoder pipeline.
#[derive(Debug, Clone)]
pub enum PipelineError {
    EncoderInitFailed,
    WriterSessionFailed,
    FrameOutOfOrder,
    Timeout,
    IoError(String),
}

/// Errors of the single-frame snapshot command.
#[derive(Debug, Clone)]
pub enum SnapshotError {
    Shell(String),
    JsCall(String),
    FrameNotReady { t_ms: u64 },
    FrameReadyContract(String),
    IoSurfaceLock(i32),
    PngEncode(String),
    Io(String),
    BundleLoad(String),
}

pub open spec fn snapshot_code(e: SnapshotError) -> Seq<char> {
    match e {
        SnapshotError::Shell(_) => "SHELL_ERROR"@,
        SnapshotError::JsCall(_) => "JS_CALL_FAILED"@,
        SnapshotError::FrameNotReady { .. } => "FRAME_READY_FALSE"@,
        SnapshotError::FrameReadyContract(_) => "FRAME_READY_CONTRACT"@,
        SnapshotError::IoSurfaceLock(_) => "IOSURFACE_LOCK_FAILED"@,
        SnapshotError::PngEncode(_) => "PNG_ENCODE_FAILED"@,
        SnapshotError::Io(_) => "IO_ERROR"@,
        SnapshotError::BundleLoad(_) => "BUNDLE_LOAD_FAILED"@,
    }
}

impl SnapshotError {
    /// The enum-string code used in the `error` event.
    pub fn code_str(&self) -> (s: &'static str)
        ensures
            s@ == snapshot_code(*self),
    {
        match self {
            SnapshotError::Shell(_) => "SHELL_ERROR",
            SnapshotError::JsCall(_) => "JS_CALL_FAILED",
            SnapshotError::FrameNotReady { .. } => "FRAME_READY_FALSE",
            SnapshotError::FrameReadyContract(_) => "FRAME_READY_CONTRACT",
            SnapshotError::IoSurfaceLock(_) => "IOSURFACE_LOCK_FAILED",
            SnapshotError::PngEncode(_) => "PNG_ENCODE_FAILED",
            SnapshotError::Io(_) => "IO_ERROR",
            SnapshotError::BundleLoad(_) => "BUNDLE_LOAD_FAILED",
        }
    }

    /// The process exit code: 1 for a bundle that will not load, else 2.
    pub fn exit_code(&self) -> (c: u8)
        ensures
            c == (if self is BundleLoad {
                1u8
            } else {
                2u8
            }),
    {
        match self {
            SnapshotError::BundleLoad(_) => 1,
            _ => 2,
        }
    }
}

/// Errors of the CEF off-screen backend.
#[derive(Debug, Clone)]
pub enum CefOsrError {
    Unavailable(String),
}

} // verus!

verus! {

/// The human-readable text of a record error.
pub open spec fn record_message(e: RecordError) -> Seq<char> {
    match e {
        RecordError::CARendererInitFailed(m) => "CARenderer init failed: "@ + m@,
        RecordError::VtEncoderFailed(m) => "VideoToolbox encoder failed: "@ + m@,
        RecordError::WriterSessionFailed(m) => "AVAssetWriter session failed: "@ + m@,
        RecordError::FrameReadyTimeout(m) => "frameReady await timeout: "@ + m@,
        RecordError::FrameReadyContract(m) => "frameReady contract violation: "@ + m@,
        RecordError::ShellError(m) => "shell error: "@ + m@,
        RecordError::PipelineError(m) => "pipeline error: "@ + m@,
        RecordError::BundleLoadFailed(m) => "bundle load failed: "@ + m@,
        RecordError::NoFrames => "no frames produced"@,
        RecordError::UnsupportedPlatform(m) => "unsupported platform: "@ + m@,
    }
}

fn prefixed(prefix: &str, m: &String) -> (s: String)
    ensures
        s@ == prefix@ + m@,
{
    let mut s = lit(prefix);
    s.append(m.as_str());
    s
}

impl RecordError {
    /// The error's message, as reported in the `error` event.
    pub fn message(&self) -> (s: String)
        ensures
            s@ == record_message(*self),
    {
        match self {
            RecordError::CARendererInitFailed(m) => prefixed("CARenderer init failed: ", m),
            RecordError::VtEncoderFailed(m) => prefixed("VideoToolbox encoder failed: ", m),
            RecordError::WriterSessionFailed(m) => prefixed("AVAssetWriter session failed: ", m),
            RecordError::FrameReadyTimeout(m) => prefixed("frameReady await timeout: ", m),
            RecordError::FrameReadyContract(m) => prefixed("frameReady contract violation: ", m),
            RecordError::ShellError(m) => prefixed("shell error: ", m),
            RecordError::PipelineError(m) => prefixed("pipeline error: ", m),
            RecordError::BundleLoadFailed(m) => prefixed("bundle load failed: ", m),
            RecordError::NoFrames => lit("no frames produced"),
            RecordError::UnsupportedPlatform(m) => prefixed("unsupported platform: ", m),
        }
    }
}

/// A signed number in decimal.
pub open spec fn signed_decimal(v: i32) -> Seq<char> {
    if v < 0 {
        seq!['-'] + decimal((-(v as int)) as nat)
    } else {
        decimal(v as nat)
    }
}

/// The human-readable text of a snapshot error.
pub open spec fn snapshot_message(e: SnapshotError) -> Seq<char> {
    match e {
        SnapshotError::Shell(m) => "shell: "@ + m@,
        SnapshotError::JsCall(m) => "js call: "@ + m@,
        SnapshotError::FrameNotReady { t_ms } => "frameReady=false at t_ms="@ + decimal(t_ms as nat),
        SnapshotError::FrameReadyContract(m) => "frameReady contract violation: "@ + m@,
        SnapshotError::IoSurfaceLock(code) => "IOSurfaceLock failed: "@ + signed_decimal(code),
        SnapshotError::PngEncode(m) => "png encode: "@ + m@,
        SnapshotError::Io(m) => "io: "@ + m@,
        SnapshotError::BundleLoad(m) => "bundle load failed: "@ + m@,
    }
}

impl SnapshotError {
    /// The error's message, as reported in the `error` event.
    pub fn message(&self) -> (s: String)
        ensures
            s@ == snapshot_message(*self),
    {
        match self {
            SnapshotError::Shell(m) => prefixed("shell: ", m),
            SnapshotError::JsCall(m) => prefixed("js call: ", m),
            SnapshotError::FrameNotReady { t_ms } => {
                let d = decimal_chars(*t_ms);
                let ds = string_from_chars(d.as_slice());
                prefixed("frameReady=false at t_ms=", &ds)
            },
            SnapshotError::FrameReadyContract(m) => prefixed("frameReady contract violation: ", m),
            SnapshotError::IoSurfaceLock(code) => {
                let c: i32 = *code;
                let mut s = lit("IOSurfaceLock failed: ");
                let magnitude: u64 = if c < 0 {
                    push_char(&mut s, '-');
                    (0i64 - (c as i64)) as u64
                } else {
                    c as u64
                };
                let d = decimal_chars(magnitude);
                let ds = string_from_chars(d.as_slice());
                s.append(ds.as_str());
                s
            },
            SnapshotError::PngEncode(m) => prefixed("png encode: ", m),
            SnapshotError::Io(m) => prefixed("io: ", m),
            SnapshotError::BundleLoad(m) => prefixed("bundle load failed: ", m),
        }
    }
}

impl CefOsrError {
    /// The error's message.
    pub fn message(&self) -> (s: String)
        ensures
            match *self {
                CefOsrError::Unavailable(m) => s@ == m@,
            },
    {
        match self {
            CefOsrError::Unavailable(m) => m.clone(),
        }
    }
}

} // verus!
