//! Single-frame snapshots: turning the sampled surface into RGBA pixels,
//! deciding when the compositor has committed a frame, telling an all-black
//! capture apart, and reading the runtime's replies for the snapshot command.

use vstd::prelude::*;

use crate::errors::SnapshotError;
use crate::project::json::{json_parse_failure, json_parse_problem};
use crate::readiness::{video_state_verdict, video_state_verdict_of, RuntimeReply, VideoState, VideoStateVerdict};
use crate::text::{decimal, decimal_chars, decimal_string, string_from_chars};

verus! {

/// How many samples the commit wait takes at most.
pub const MAX_COMMIT_RETRIES: u32 = 60;
/// Above this many pixels a black capture is retried at the fallback size.
pub const MAX_SAFE_SNAPSHOT_PIXELS: u64 = 16_777_216;
/// Width of the fallback capture.
pub const FALLBACK_WIDTH: u32 = 1920;
/// Height of the fallback capture.
pub const FALLBACK_HEIGHT: u32 = 1080;

/// The source channel (in BGRA order) of RGBA channel `c`.
pub open spec fn bgra_channel(c: int) -> int {
    if c == 0 {
        2
    } else if c == 2 {
        0
    } else {
        c
    }
}

/// Row `y` of the surface `src` (rows `bytes_per_row` apart, pixels in BGRA)
/// as `width` RGBA pixels.
pub open spec fn rgba_row(src: Seq<u8>, width: nat, bytes_per_row: nat, y: nat) -> Seq<u8> {
    Seq::new(4 * width, |j: int| src[y * bytes_per_row + (j - j % 4) + bgra_channel(j % 4)])
}

/// The first `rows` rows of the surface as one RGBA raster.
pub open spec fn rgba_raster(src: Seq<u8>, width: nat, bytes_per_row: nat, rows: nat) -> Seq<u8>
    decreases rows,
{
    if rows == 0 {
        Seq::empty()
    } else {
        rgba_raster(src, width, bytes_per_row, (rows - 1) as nat) + rgba_row(src, width, bytes_per_row, (rows - 1) as nat)
    }
}

/// `{a}x{b}` in decimal.
pub open spec fn extent_text(a: nat, b: nat) -> Seq<char> {
    decimal(a) + "x"@ + decimal(b)
}

/// Why a surface of this shape cannot be read, or `None` when it can.
pub open spec fn raster_problem(width: usize, height: usize, bytes_per_row: usize) -> Option<Seq<char>> {
    if width == 0 || height == 0 {
        Some("IOSurface zero extent: "@ + extent_text(width as nat, height as nat))
    } else if 4 * width > usize::MAX {
        Some("width overflow: "@ + decimal(width as nat))
    } else if bytes_per_row < 4 * width {
        Some("bytes_per_row ("@ + decimal(bytes_per_row as nat) + ") < width*4 ("@ + decimal(4 * width as nat) + ")"@)
    } else if 4 * width * height > usize::MAX {
        Some("raster overflow: "@ + extent_text(width as nat, height as nat))
    } else {
        None
    }
}

fn usize_text(n: usize) -> (s: String)
    ensures
        s@ == decimal(n as nat),
{
    decimal_string(n as u64)
}

fn extent_string(a: usize, b: usize) -> (s: String)
    ensures
        s@ == extent_text(a as nat, b as nat),
{
    let mut s = usize_text(a);
    s.append("x");
    let t = usize_text(b);
    s.append(t.as_str());
    s
}

proof fn lemma_row_fits(y: nat, height: nat, bytes_per_row: nat)
    requires
        y < height,
    ensures
        y * bytes_per_row + bytes_per_row <= bytes_per_row * height,
{
    assert(y * bytes_per_row + bytes_per_row == (y + 1) * bytes_per_row) by (nonlinear_arith);
    assert((y + 1) * bytes_per_row <= bytes_per_row * height) by (nonlinear_arith)
        requires
            y + 1 <= height,
    ;
}

/// Copies a BGRA surface (rows `bytes_per_row` apart) into a tight RGBA
/// raster, or says why the surface's shape cannot be read.
pub fn bgra_to_rgba(src: &[u8], width: usize, height: usize, bytes_per_row: usize) -> (r: Result<Vec<u8>, SnapshotError>)
    requires
        4 * width <= bytes_per_row ==> bytes_per_row * height <= src@.len(),
    ensures
        match raster_problem(width, height, bytes_per_row) {
            Some(m) => r matches Err(SnapshotError::FrameReadyContract(msg)) && msg@ == m,
            None => r matches Ok(v) && v@ == rgba_raster(src@, width as nat, bytes_per_row as nat, height as nat),
        },
{
    if width == 0 || height == 0 {
        let mut s = String::from_str("IOSurface zero extent: ");
        let e = extent_string(width, height);
        s.append(e.as_str());
        return Err(SnapshotError::FrameReadyContract(s));
    }
    let row_bytes: usize = match width.checked_mul(4) {
        Some(n) => n,
        None => {
            let mut s = String::from_str("width overflow: ");
            let t = usize_text(width);
            s.append(t.as_str());
            return Err(SnapshotError::FrameReadyContract(s));
        },
    };
    if bytes_per_row < row_bytes {
        let mut s = String::from_str("bytes_per_row (");
        let t = usize_text(bytes_per_row);
        s.append(t.as_str());
        s.append(") < width*4 (");
        let u = usize_text(row_bytes);
        s.append(u.as_str());
        s.append(")");
        return Err(SnapshotError::FrameReadyContract(s));
    }
    if row_bytes.checked_mul(height).is_none() {
        let mut s = String::from_str("raster overflow: ");
        let e = extent_string(width, height);
        s.append(e.as_str());
        return Err(SnapshotError::FrameReadyContract(s));
    }
    let n = src.len();
    let ghost w = width as nat;
    let ghost bpr = bytes_per_row as nat;
    let mut out: Vec<u8> = Vec::new();
    let mut y: usize = 0;
    while y < height
        invariant
            y <= height,
            row_bytes == 4 * width,
            row_bytes <= bytes_per_row,
            bytes_per_row * height <= src@.len(),
            n == src@.len(),
            w == width,
            bpr == bytes_per_row,
            out@ == rgba_raster(src@, w, bpr, y as nat),
        decreases height - y,
    {
        proof {
            lemma_row_fits(y as nat, height as nat, bpr);
        }
        let base: usize = y * bytes_per_row;
        let ghost done = out@;
        let mut x: usize = 0;
        while x < width
            invariant
                x <= width,
                y < height,
                row_bytes == 4 * width,
                row_bytes <= bytes_per_row,
                base == y * bytes_per_row,
                base + bytes_per_row <= src@.len(),
                n == src@.len(),
                w == width,
                bpr == bytes_per_row,
                done == rgba_raster(src@, w, bpr, y as nat),
                out@ == done + rgba_row(src@, w, bpr, y as nat).take(4 * x),
            decreases width - x,
        {
            let p: usize = base + 4 * x;
            let b = src[p];
            let g = src[p + 1];
            let rr = src[p + 2];
            let a = src[p + 3];
            out.push(rr);
            out.push(g);
            out.push(b);
            out.push(a);
            proof {
                let row = rgba_row(src@, w, bpr, y as nat);
                let k = 4 * x as int;
                assert((k + 0) % 4 == 0 && (k + 1) % 4 == 1 && (k + 2) % 4 == 2 && (k + 3) % 4 == 3);
                assert(row[k] == rr);
                assert(row[k + 1] == g);
                assert(row[k + 2] == b);
                assert(row[k + 3] == a);
                assert(row.take(k + 4) =~= row.take(k).push(rr).push(g).push(b).push(a));
            }
            x = x + 1;
        }
        proof {
            let row = rgba_row(src@, w, bpr, y as nat);
            assert(row.take(4 * width as int) =~= row);
        }
        y = y + 1;
    }
    Ok(out)
}

/// The pixel at byte `i` counts as lit: opaque enough (alpha above 8) and
/// not near black (red, green and blue adding up to more than 24).
pub open spec fn lit_pixel(bytes: Seq<u8>, i: int) -> bool {
    bytes[i + 3] > 8 && bytes[i] + bytes[i + 1] + bytes[i + 2] > 24
}

/// The distance in bytes between sampled pixels: every pixel up to 4096
/// pixels, then an even spread of about 4096 samples.
pub open spec fn sample_step(len: nat) -> nat {
    let stride = (len / 4) / 4096;
    if stride >= 1 {
        4 * stride
    } else {
        4
    }
}

/// No sampled pixel from byte `i` on (every `step` bytes) is lit.
pub open spec fn no_lit_from(bytes: Seq<u8>, i: nat, step: nat) -> bool
    decreases bytes.len() - i,
{
    if step == 0 || i + 3 >= bytes.len() {
        true
    } else if i + step >= bytes.len() {
        !lit_pixel(bytes, i as int)
    } else {
        !lit_pixel(bytes, i as int) && no_lit_from(bytes, i + step, step)
    }
}

/// An RGBA raster looks black: it holds at least one pixel and none of the
/// sampled pixels is lit.
pub open spec fn looks_black(bytes: Seq<u8>) -> bool {
    bytes.len() >= 4 && no_lit_from(bytes, 0, sample_step(bytes.len()))
}

/// Whether a decoded RGBA capture looks black, judged on a sample of about
/// 4096 pixels.
pub fn rgba_looks_black(bytes: &[u8]) -> (r: bool)
    ensures
        r == looks_black(bytes@),
{
    let len = bytes.len();
    if len < 4 {
        return false;
    }
    let px_count = len / 4;
    let stride0 = px_count / 4096;
    let stride: usize = if stride0 >= 1 { stride0 } else { 1 };
    let step: usize = stride * 4;
    assert(step == sample_step(len as nat));
    let mut i: usize = 0;
    while len - i > 3
        invariant
            i < len,
            len == bytes@.len(),
            step == sample_step(len as nat),
            step >= 4,
            step <= len,
            no_lit_from(bytes@, 0, step as nat) == no_lit_from(bytes@, i as nat, step as nat),
        decreases len - i,
    {
        let r = bytes[i] as u16;
        let g = bytes[i + 1] as u16;
        let b = bytes[i + 2] as u16;
        let a = bytes[i + 3] as u16;
        if a > 8 && r + g + b > 24 {
            return false;
        }
        if step >= len - i {
            assert(no_lit_from(bytes@, (i + step) as nat, step as nat));
            return true;
        }
        i = i + step;
    }
    true
}

/// The pixel at the centre of a BGRA surface, as its four bytes in memory
/// order; all zero for an empty surface.
pub open spec fn center_pixel_of(src: Seq<u8>, width: nat, height: nat, bytes_per_row: nat) -> (u8, u8, u8, u8) {
    if width == 0 || height == 0 {
        (0, 0, 0, 0)
    } else {
        let o: int = ((height / 2) * bytes_per_row + (width / 2) * 4) as int;
        (src[o], src[o + 1], src[o + 2], src[o + 3])
    }
}

/// Reads the centre pixel of a surface.
pub fn center_pixel(src: &[u8], width: usize, height: usize, bytes_per_row: usize) -> (p: (u8, u8, u8, u8))
    requires
        width > 0 && height > 0 ==> (height / 2) * bytes_per_row + (width / 2) * 4 + 4 <= src@.len(),
    ensures
        p == center_pixel_of(src@, width as nat, height as nat, bytes_per_row as nat),
{
    if width == 0 || height == 0 {
        return (0, 0, 0, 0);
    }
    let n = src.len();
    let cy = height / 2;
    let cx = width / 2;
    let o = cy * bytes_per_row + cx * 4;
    (src[o], src[o + 1], src[o + 2], src[o + 3])
}

/// What to do after looking at one sample while waiting for the
/// compositor to commit the frame.
#[derive(Debug, Clone, Copy, PartialEq, Eq)]
pub enum CommitStep {
    /// The frame is committed: use this sample.
    Committed,
    /// Take another sample.
    Resample,
    /// The budget is spent: use this sample as it is.
    GiveUp,
}

/// The state of the wait for a committed frame.
#[derive(Debug, Clone, Copy)]
pub struct CommitWatch {
    /// The centre pixel of the previous sample.
    pub prev_center: Option<(u8, u8, u8, u8)>,
    /// Samples looked at so far.
    pub samples: u32,
}

/// A sample shows a committed frame when its centre pixel is not fully
/// zero and equals the centre of the sample before it.
pub open spec fn is_committed(prev: Option<(u8, u8, u8, u8)>, center: (u8, u8, u8, u8)) -> bool {
    center != (0u8, 0u8, 0u8, 0u8) && prev == Some(center)
}

impl CommitWatch {
    /// The wait before the first sample.
    pub fn new() -> (w: Self)
        ensures
            w.prev_center is None,
            w.samples == 0,
    {
        CommitWatch { prev_center: None, samples: 0 }
    }

    /// Looks at the centre pixel of the next sample.
    pub fn observe(&mut self, center: (u8, u8, u8, u8)) -> (step: CommitStep)
        requires
            old(self).samples < MAX_COMMIT_RETRIES,
        ensures
            final(self).samples == old(self).samples + 1,
            final(self).prev_center == Some(center),
            step == (if is_committed(old(self).prev_center, center) {
                CommitStep::Committed
            } else if final(self).samples >= MAX_COMMIT_RETRIES {
                CommitStep::GiveUp
            } else {
                CommitStep::Resample
            }),
    {
        let non_zero = center.0 != 0 || center.1 != 0 || center.2 != 0 || center.3 != 0;
        let same = match self.prev_center {
            Some(p) => p.0 == center.0 && p.1 == center.1 && p.2 == center.2 && p.3 == center.3,
            None => false,
        };
        self.prev_center = Some(center);
        self.samples = self.samples + 1;
        if non_zero && same {
            CommitStep::Committed
        } else if self.samples >= MAX_COMMIT_RETRIES {
            CommitStep::GiveUp
        } else {
            CommitStep::Resample
        }
    }
}

/// A capture is taken again at the fallback size when it is larger than
/// the safe pixel count, looks black, and was not already that size.
pub fn needs_fallback_capture(width: u32, height: u32, looks_black: bool) -> (r: bool)
    ensures
        r == (width * height > MAX_SAFE_SNAPSHOT_PIXELS && looks_black
            && (width != FALLBACK_WIDTH || height != FALLBACK_HEIGHT)),
{
    let w64 = width as u64;
    let h64 = height as u64;
    assert(w64 * h64 <= u32::MAX * u32::MAX) by (nonlinear_arith)
        requires
            w64 <= u32::MAX,
            h64 <= u32::MAX,
    ;
    let pixels: u64 = w64 * h64;
    pixels > MAX_SAFE_SNAPSHOT_PIXELS && looks_black && (width != FALLBACK_WIDTH || height != FALLBACK_HEIGHT)
}

/// The snapshot command's reading of a video-state report at `t_ms`.
pub fn video_state_is_ready(state: &VideoState, t_ms: u64) -> (r: Result<bool, SnapshotError>)
    ensures
        match video_state_verdict_of(*state, t_ms as i64) {
            VideoStateVerdict::Ready => r == Ok::<bool, SnapshotError>(true),
            VideoStateVerdict::Waiting => r == Ok::<bool, SnapshotError>(false),
            VideoStateVerdict::NotObject => r matches Err(SnapshotError::FrameReadyContract(m))
                && m@ == "video-state expected object at t_ms="@ + decimal(t_ms as nat) + " · got "@ + state.text@,
            VideoStateVerdict::MissingClips => r matches Err(SnapshotError::FrameReadyContract(m))
                && m@ == "video-state missing clips at t_ms="@ + decimal(t_ms as nat) + " · payload="@ + state.text@,
            VideoStateVerdict::ClipNotObject(i) => {
                &&& state.clips is Some
                &&& i < state.clips.unwrap().len()
                &&& r matches Err(SnapshotError::FrameReadyContract(m))
                &&& m@ == "video-state clip not object at t_ms="@ + decimal(t_ms as nat) + " · payload="@
                    + state.clips.unwrap()@[i as int].text@
            },
        },
{
    let target: i64 = t_ms as i64;
    let t = decimal_chars(t_ms);
    let ts = string_from_chars(t.as_slice());
    match video_state_verdict(state, target) {
        VideoStateVerdict::Ready => Ok(true),
        VideoStateVerdict::Waiting => Ok(false),
        VideoStateVerdict::NotObject => {
            let mut s = String::from_str("video-state expected object at t_ms=");
            s.append(ts.as_str());
            s.append(" · got ");
            s.append(state.text.as_str());
            Err(SnapshotError::FrameReadyContract(s))
        },
        VideoStateVerdict::MissingClips => {
            let mut s = String::from_str("video-state missing clips at t_ms=");
            s.append(ts.as_str());
            s.append(" · payload=");
            s.append(state.text.as_str());
            Err(SnapshotError::FrameReadyContract(s))
        },
        VideoStateVerdict::ClipNotObject(i) => {
            let clips = state.clips.as_ref().unwrap();
            let mut s = String::from_str("video-state clip not object at t_ms=");
            s.append(ts.as_str());
            s.append(" · payload=");
            s.append(clips[i].text.as_str());
            Err(SnapshotError::FrameReadyContract(s))
        },
    }
}

/// The JSON text a runtime reply to a seek stands for, or the contract
/// error for a string that does not parse.
pub fn parse_seek_result(raw: &RuntimeReply) -> (r: Result<String, SnapshotError>)
    ensures
        match *raw {
            RuntimeReply::Json(t) => r matches Ok(v) && v@ == t@,
            RuntimeReply::Text(s) => match json_parse_problem(s@) {
                None => r matches Ok(v) && v@ == s@,
                Some(e) => r matches Err(SnapshotError::FrameReadyContract(m))
                    && m@ == "seek returned non-JSON string: "@ + e + " · raw="@ + s@,
            },
        },
{
    match raw {
        RuntimeReply::Json(t) => Ok(t.clone()),
        RuntimeReply::Text(s) => match json_parse_failure(s.as_str()) {
            None => Ok(s.clone()),
            Some(e) => {
                let mut m = String::from_str("seek returned non-JSON string: ");
                m.append(e.as_str());
                m.append(" · raw=");
                m.append(s.as_str());
                Err(SnapshotError::FrameReadyContract(m))
            },
        },
    }
}

} // verus!
