//! What a recording is configured with, how long it runs and which frames
//! it records, when it reports progress, and the command line a segment
//! worker of a parallel recording is started with.

use vstd::prelude::*;
use crate::text::{decimal_string, texts};
use crate::errors::RecordError;
use crate::export::{ColorSpec, ResolvedExportPreset, VideoCodec};
use crate::mp4::verdict::lit;
use crate::parallel::{frame_range_arg, segment_res_arg, spec_res_arg};
use crate::text::decimal;

verus! {

/// One recording: input page, output file, size, rate and encoder.
#[derive(Debug, Clone)]
pub struct RecordConfig {
    /// The page to record.
    pub bundle: String,
    /// The MP4 to write.
    pub output: String,
    pub width: u32,
    pub height: u32,
    pub fps: u32,
    pub bitrate_bps: u32,
    pub codec: VideoCodec,
    /// Hard cap on the recording in seconds.
    pub max_duration_s: u32,
    /// The half-open frame range a segment worker records; `None` for all.
    pub frame_range: Option<(u64, u64)>,
}

/// What the encoder pipeline is opened with.
#[derive(Debug, Clone)]
pub struct RecordOpts {
    pub width: u32,
    pub height: u32,
    pub fps: u32,
    pub bitrate_bps: u32,
    pub codec: VideoCodec,
    pub output: String,
    pub color: ColorSpec,
}

/// What a finished recording reports.
#[derive(Debug, Clone)]
pub struct OutputStats {
    pub frames: u64,
    pub duration_ms: u64,
    pub size_bytes: u64,
    pub moov_front: bool,
    pub path: String,
}

/// The encoder options of a recording: its size, rate and codec, in 8-bit
/// BT.709 SDR.
pub fn record_opts_for(cfg: &RecordConfig) -> (o: RecordOpts)
    ensures
        o.width == cfg.width,
        o.height == cfg.height,
        o.fps == cfg.fps,
        o.bitrate_bps == cfg.bitrate_bps,
        o.codec == cfg.codec,
        o.output@ == cfg.output@,
        o.color == ColorSpec::BT709_SDR_8bit,
{
    RecordOpts {
        width: cfg.width,
        height: cfg.height,
        fps: cfg.fps,
        bitrate_bps: cfg.bitrate_bps,
        codec: cfg.codec,
        output: cfg.output.clone(),
        color: ColorSpec::BT709_SDR_8bit,
    }
}

/// The recording of a source export: the export page, the preset's size,
/// bitrate and codec, the requested rate, the whole duration.
pub fn export_record_config(
    bundle: String,
    output: String,
    preset: &ResolvedExportPreset,
    fps: u32,
    max_duration_s: u32,
) -> (c: RecordConfig)
    ensures
        c.bundle@ == bundle@,
        c.output@ == output@,
        c.width == preset.viewport.0,
        c.height == preset.viewport.1,
        c.fps == fps,
        c.bitrate_bps == preset.bitrate_bps,
        c.codec == preset.codec,
        c.max_duration_s == max_duration_s,
        c.frame_range is None,
{
    RecordConfig {
        bundle,
        output,
        width: preset.viewport.0,
        height: preset.viewport.1,
        fps,
        bitrate_bps: preset.bitrate_bps,
        codec: preset.codec,
        max_duration_s,
        frame_range: None,
    }
}

/// The arguments a segment worker is started with: the page, `-o` and its
/// file, `--fps`, `--bitrate`, `--max-duration`, `--res` and
/// `--frame-range <start>,<end>`.
pub open spec fn spec_segment_args(cfg: RecordConfig, seg_path: Seq<char>, start: u64, end: u64) -> Seq<Seq<char>> {
    seq![
        cfg.bundle@,
        "-o"@,
        seg_path,
        "--fps"@,
        decimal(cfg.fps as nat),
        "--bitrate"@,
        decimal(cfg.bitrate_bps as nat),
        "--max-duration"@,
        decimal(cfg.max_duration_s as nat),
        "--res"@,
        spec_res_arg(cfg.width, cfg.height),
        "--frame-range"@,
        decimal(start as nat) + ","@ + decimal(end as nat),
    ]
}

/// The command-line arguments of the worker recording frames
/// `start..end` of `cfg` into `seg_path`.
pub fn segment_args(cfg: &RecordConfig, seg_path: &str, start: u64, end: u64) -> (args: Vec<String>)
    ensures
        texts(args@) == spec_segment_args(*cfg, seg_path@, start, end),
{
    let mut args: Vec<String> = Vec::new();
    args.push(cfg.bundle.clone());
    args.push(lit("-o"));
    args.push(lit(seg_path));
    args.push(lit("--fps"));
    args.push(decimal_string(cfg.fps as u64));
    args.push(lit("--bitrate"));
    args.push(decimal_string(cfg.bitrate_bps as u64));
    args.push(lit("--max-duration"));
    args.push(decimal_string(cfg.max_duration_s as u64));
    args.push(lit("--res"));
    args.push(segment_res_arg(cfg.width, cfg.height));
    args.push(lit("--frame-range"));
    args.push(frame_range_arg(start, end));
    proof {
        assert(texts(args@) =~= spec_segment_args(*cfg, seg_path@, start, end));
    }
    args
}

/// The length of a recording in milliseconds: the page's own duration
/// capped at `max_duration_s`, or the cap alone when the page reports none
/// (or zero).
pub open spec fn spec_recording_duration_ms(probed_ms: Option<u64>, max_duration_s: u32) -> int {
    let cap = max_duration_s * 1000;
    match probed_ms {
        Some(d) => if d == 0 {
            cap
        } else if d < cap {
            d as int
        } else {
            cap
        },
        None => cap,
    }
}

/// How long to record, or the bundle error when that comes to zero.
pub fn recording_duration_ms(probed_ms: Option<u64>, max_duration_s: u32) -> (r: Result<u64, RecordError>)
    ensures
        spec_recording_duration_ms(probed_ms, max_duration_s) == 0 ==> (r matches Err(RecordError::BundleLoadFailed(m))
            && m@ == "duration resolves to 0 (check --max-duration and bundle getDuration)"@),
        spec_recording_duration_ms(probed_ms, max_duration_s) != 0 ==> r == Ok::<u64, RecordError>(
            spec_recording_duration_ms(probed_ms, max_duration_s) as u64),
{
    let cap: u64 = (max_duration_s as u64) * 1000;
    let d: u64 = match probed_ms {
        Some(p) => if p == 0 {
            cap
        } else if p < cap {
            p
        } else {
            cap
        },
        None => cap,
    };
    if d == 0 {
        return Err(RecordError::BundleLoadFailed(lit("duration resolves to 0 (check --max-duration and bundle getDuration)")));
    }
    Ok(d)
}

/// The frames this process records out of `total_frames`: the requested
/// range clipped to the recording, or all of it.
pub fn frame_span(range: Option<(u64, u64)>, total_frames: u64) -> (r: Result<(u64, u64), RecordError>)
    ensures
        ({
            let (s, e) = match range {
                Some((a, b)) => (if a < total_frames { a } else { total_frames }, if b < total_frames { b } else { total_frames }),
                None => (0u64, total_frames),
            };
            if total_frames == 0 || e <= s {
                r matches Err(RecordError::NoFrames)
            } else {
                r == Ok::<(u64, u64), RecordError>((s, e))
            }
        }),
{
    if total_frames == 0 {
        return Err(RecordError::NoFrames);
    }
    let (s, e) = match range {
        Some((a, b)) => (if a < total_frames { a } else { total_frames }, if b < total_frames { b } else { total_frames }),
        None => (0, total_frames),
    };
    if e <= s {
        return Err(RecordError::NoFrames);
    }
    Ok((s, e))
}

/// How often, in frames, the recording reports its progress.
pub const PROGRESS_EVERY: u64 = 30;

/// Whether frame `seq` is followed by a progress event: every
/// `PROGRESS_EVERY` frames, not counting the first.
pub fn is_progress_frame(seq: u64) -> (r: bool)
    ensures
        r == (seq > 0 && seq % PROGRESS_EVERY == 0),
{
    seq > 0 && seq % PROGRESS_EVERY == 0
}

} // verus!
