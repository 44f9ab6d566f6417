//! Time-sliced parallel recording: how many segments, which frames each
//! segment records, their files, and the progress they report.

use vstd::prelude::*;
use crate::text::texts;
use crate::errors::RecordError;
use crate::text::{decimal, decimal_chars, framed_number, string_from_chars};
use crate::mp4::verdict::lit;

verus! {

/// Below this duration (ms) a parallel export records in one process.
pub const PARALLEL_MIN_DURATION_MS: u64 = 6000;

/// Default segment count for 4k exports.
pub const PARALLEL_DEFAULT_4K: usize = 2;

/// Most segments any export may use.
pub const PARALLEL_MAX: usize = 4;

/// Most segments a 4k export may use.
pub const PARALLEL_MAX_4K: usize = 2;

/// Default segment count: two for 3840x2160, one otherwise.
pub fn default_parallel_for_viewport(width: u32, height: u32) -> (n: usize)
    ensures
        n == (if width == 3840 && height == 2160 {
            2usize
        } else {
            1usize
        }),
{
    if width == 3840 && height == 2160 {
        PARALLEL_DEFAULT_4K
    } else {
        1
    }
}

/// A requested segment count must be between 1 and 4.
pub fn validate_requested_parallel(parallel: usize) -> (r: Result<usize, RecordError>)
    ensures
        1 <= parallel <= 4 ==> (r matches Ok(n) && n == parallel),
        parallel == 0 ==> (r matches Err(RecordError::PipelineError(m)) && m@
            == "parallel must be >= 1"@),
        parallel > 4 ==> (r matches Err(RecordError::PipelineError(m)) && m@
            == "parallel must be <= 4 (got "@ + decimal(parallel as nat) + ")"@),
{
    if parallel == 0 {
        return Err(RecordError::PipelineError(lit("parallel must be >= 1")));
    }
    if parallel > PARALLEL_MAX {
        return Err(
            RecordError::PipelineError(
                framed_number("parallel must be <= 4 (got ", parallel as u64, ")"),
            ),
        );
    }
    Ok(parallel)
}

/// The segment count for an export: the request, or the viewport default;
/// 4k allows at most two.
pub fn resolve_requested_parallel(requested: Option<usize>, width: u32, height: u32) -> (r: Result<
    usize,
    RecordError,
>)
    ensures
        ({
            let p = match requested {
                Some(v) => v,
                None => if width == 3840 && height == 2160 {
                    2usize
                } else {
                    1usize
                },
            };
            &&& p == 0 ==> (r matches Err(RecordError::PipelineError(m)) && m@
                == "parallel must be >= 1"@)
            &&& p > 4 ==> (r matches Err(RecordError::PipelineError(m)) && m@
                == "parallel must be <= 4 (got "@ + decimal(p as nat) + ")"@)
            &&& 1 <= p <= 4 && width == 3840 && height == 2160 && p > 2 ==> (r matches Err(
                RecordError::PipelineError(m),
            ) && m@ == "4k export supports parallel 1 or 2 only (got x"@ + decimal(p as nat)
                + ")"@)
            &&& 1 <= p <= 4 && !(width == 3840 && height == 2160 && p > 2) ==> (r matches Ok(n)
                && n == p)
        }),
{
    let parallel = match requested {
        Some(v) => v,
        None => default_parallel_for_viewport(width, height),
    };
    validate_requested_parallel(parallel)?;
    if width == 3840 && height == 2160 && parallel > PARALLEL_MAX_4K {
        return Err(
            RecordError::PipelineError(
                framed_number(
                    "4k export supports parallel 1 or 2 only (got x",
                    parallel as u64,
                    ")",
                ),
            ),
        );
    }
    Ok(parallel)
}

/// Segment `i` of `parallel` over `total` frames: half-open `[start, end)`;
/// every segment has `total / parallel` frames except the last, which also
/// takes the remainder.
pub open spec fn frame_range(total: nat, parallel: nat, i: nat) -> (nat, nat) {
    let step = total / parallel;
    (
        i * step,
        if i + 1 == parallel {
            total
        } else {
            (i + 1) * step
        },
    )
}

/// Splits `total_frames` into `parallel` contiguous half-open frame ranges;
/// none for zero frames or zero segments.
pub fn compute_frame_ranges(total_frames: u64, parallel: usize) -> (v: Vec<(u64, u64)>)
    ensures
        total_frames == 0 || parallel == 0 ==> v@.len() == 0,
        total_frames > 0 && parallel > 0 ==> v@.len() == parallel,
        total_frames > 0 && parallel > 0 ==> forall|i: int|
            0 <= i < parallel ==> (#[trigger] v@[i]).0 == frame_range(
                total_frames as nat,
                parallel as nat,
                i as nat,
            ).0 && v@[i].1 == frame_range(total_frames as nat, parallel as nat, i as nat).1,
{
    let mut ranges: Vec<(u64, u64)> = Vec::new();
    if total_frames == 0 || parallel == 0 {
        return ranges;
    }
    let step = total_frames / parallel as u64;
    let mut cursor: u64 = 0;
    let mut i: usize = 0;
    while i < parallel
        invariant
            0 < parallel,
            step == (total_frames as int) / (parallel as int),
            i <= parallel,
            ranges@.len() == i,
            cursor == (if i == parallel { total_frames as int } else { i * step }),
            cursor <= total_frames,
            forall|k: int|
                0 <= k < i ==> (#[trigger] ranges@[k]).0 == frame_range(
                    total_frames as nat,
                    parallel as nat,
                    k as nat,
                ).0 && ranges@[k].1 == frame_range(
                    total_frames as nat,
                    parallel as nat,
                    k as nat,
                ).1,
        decreases parallel - i,
    {
        proof {
            assert((i + 1) * step <= parallel * step) by (nonlinear_arith)
                requires
                    i + 1 <= parallel,
                    step >= 0,
            ;
            assert(parallel * step <= total_frames) by (nonlinear_arith)
                requires
                    step == (total_frames as int) / (parallel as int),
                    parallel > 0,
            ;
            assert((i + 1) * step == i * step + step) by (nonlinear_arith);
        }
        let end = if i + 1 == parallel {
            total_frames
        } else {
            cursor + step
        };
        ranges.push((cursor, end));
        cursor = end;
        i = i + 1;
    }
    ranges
}


/// The frame ranges of a parallel export partition `[0, total)`: the first
/// starts at frame 0, each starts where the previous one ends, the last ends
/// at `total`, and every range but the last holds exactly `total / parallel`
/// frames while the last holds at least that many.
pub proof fn lemma_frame_ranges_partition(total: nat, parallel: nat)
    requires
        parallel > 0,
    ensures
        frame_range(total, parallel, 0).0 == 0,
        frame_range(total, parallel, (parallel - 1) as nat).1 == total,
        forall|i: nat|
            i + 1 < parallel ==> #[trigger] frame_range(total, parallel, i).1 == frame_range(
                total,
                parallel,
                i + 1,
            ).0,
        forall|i: nat|
            i + 1 < parallel ==> #[trigger] frame_range(total, parallel, i).1 - frame_range(
                total,
                parallel,
                i,
            ).0 == total / parallel,
        forall|i: nat|
            i < parallel ==> #[trigger] frame_range(total, parallel, i).0 <= frame_range(
                total,
                parallel,
                i,
            ).1,
        frame_range(total, parallel, (parallel - 1) as nat).1 - frame_range(
            total,
            parallel,
            (parallel - 1) as nat,
        ).0 >= total / parallel,
{
    let step = total / parallel;
    assert(parallel * step <= total) by (nonlinear_arith)
        requires
            step == total / parallel,
            parallel > 0,
    ;
    assert forall|i: nat| i < parallel implies #[trigger] frame_range(total, parallel, i).0
        <= frame_range(total, parallel, i).1 by {
        assert((i + 1) * step == i * step + step) by (nonlinear_arith);
        assert((i + 1) * step <= parallel * step) by (nonlinear_arith)
            requires
                i + 1 <= parallel,
        ;
    }
    assert forall|i: nat| i + 1 < parallel implies #[trigger] frame_range(total, parallel, i).1
        - frame_range(total, parallel, i).0 == total / parallel by {
        assert((i + 1) * step == i * step + step) by (nonlinear_arith);
    }
    let last = (parallel - 1) as nat;
    assert(last * step + step == parallel * step) by (nonlinear_arith)
        requires
            last + 1 == parallel,
    ;
}

} // verus!

verus! {

/// `n` in decimal, zero-padded to at least two digits (`{:02}`).
pub open spec fn two_digits(n: nat) -> Seq<char> {
    if n < 10 {
        seq!['0'] + decimal(n)
    } else {
        decimal(n)
    }
}

/// The file a segment records to: `<stem>.seg<NN>.mp4`.
pub fn segment_file_name(stem: &str, index: usize) -> (s: String)
    ensures
        s@ == stem@ + ".seg"@ + two_digits(index as nat) + ".mp4"@,
{
    let mut s = lit(stem);
    s.append(".seg");
    if index < 10 {
        s.append("0");
        proof {
            reveal_strlit("0");
            assert("0"@ =~= seq!['0']);
        }
    }
    let d = decimal_chars(index as u64);
    let ds = string_from_chars(d.as_slice());
    s.append(ds.as_str());
    s.append(".mp4");
    proof {
        if index < 10 {
            assert(s@ =~= stem@ + ".seg"@ + (seq!['0'] + decimal(index as nat)) + ".mp4"@);
        }
    }
    s
}

/// The `--frame-range` argument of a segment: `<start>,<end>`.
pub fn frame_range_arg(start: u64, end: u64) -> (s: String)
    ensures
        s@ == decimal(start as nat) + ","@ + decimal(end as nat),
{
    let a = decimal_chars(start);
    let mut s = string_from_chars(a.as_slice());
    s.append(",");
    let b = decimal_chars(end);
    let bs = string_from_chars(b.as_slice());
    s.append(bs.as_str());
    s
}

/// The `--res` argument a segment is started with.
pub open spec fn spec_res_arg(width: u32, height: u32) -> Seq<char> {
    if width == 1920 && height == 1080 {
        "1080p"@
    } else if width == 3840 && height == 2160 {
        "4k"@
    } else {
        decimal(width as nat) + "x"@ + decimal(height as nat)
    }
}

/// The `--res` argument for a segment of a `width`x`height` recording.
pub fn segment_res_arg(width: u32, height: u32) -> (s: String)
    ensures
        s@ == spec_res_arg(width, height),
{
    if width == 1920 && height == 1080 {
        lit("1080p")
    } else if width == 3840 && height == 2160 {
        lit("4k")
    } else {
        let a = decimal_chars(width as u64);
        let mut s = string_from_chars(a.as_slice());
        s.append("x");
        let b = decimal_chars(height as u64);
        let bs = string_from_chars(b.as_slice());
        s.append(bs.as_str());
        s
    }
}

/// The lines of an ffmpeg concat list: `file '<path>'` per segment, joined
/// by newlines.
pub open spec fn concat_list_text(paths: Seq<Seq<char>>) -> Seq<char>
    decreases paths.len(),
{
    if paths.len() == 0 {
        seq![]
    } else if paths.len() == 1 {
        "file '"@ + paths[0] + "'"@
    } else {
        concat_list_text(paths.drop_last()) + "\n"@ + ("file '"@ + paths.last() + "'"@)
    }
}

/// The ffmpeg concat list of the segment files.
pub fn concat_list(paths: &Vec<String>) -> (s: String)
    ensures
        s@ == concat_list_text(texts(paths@)),
{
    let mut s = String::new();
    let mut i: usize = 0;
    while i < paths.len()
        invariant
            i <= paths.len(),
            s@ == concat_list_text(texts(paths@.take(i as int))),
        decreases paths.len() - i,
    {
        proof {
            assert(texts(paths@.take(i + 1)).drop_last() =~= texts(paths@.take(i as int)));
        }
        if i > 0 {
            s.append("\n");
        }
        s.append("file '");
        s.append(paths[i].as_str());
        s.append("'");
        proof {
            let t = texts(paths@.take(i + 1));
            assert(t.last() == paths@[i as int]@);
            if i == 0 {
                assert(t[0] == paths@[0]@);
            }
        }
        i = i + 1;
    }
    proof {
        assert(paths@.take(paths.len() as int) =~= paths@);
    }
    s
}

/// Sum of `s`.
pub open spec fn sum_u64(s: Seq<u64>) -> nat
    decreases s.len(),
{
    if s.len() == 0 {
        0
    } else {
        sum_u64(s.drop_last()) + (s.last() as nat)
    }
}

proof fn lemma_sum_update(s: Seq<u64>, i: int, v: u64)
    requires
        0 <= i < s.len(),
    ensures
        sum_u64(s.update(i, v)) == sum_u64(s) - s[i] + v,
    decreases s.len(),
{
    if i < s.len() - 1 {
        lemma_sum_update(s.drop_last(), i, v);
        assert(s.update(i, v).drop_last() =~= s.drop_last().update(i, v));
    } else {
        assert(s.update(i, v).drop_last() =~= s.drop_last());
    }
}

proof fn lemma_sum_prefix(s: Seq<u64>, i: int)
    requires
        0 <= i <= s.len(),
    ensures
        sum_u64(s.take(i)) <= sum_u64(s),
    decreases s.len(),
{
    if i < s.len() {
        assert(s.drop_last().take(i) =~= s.take(i));
        lemma_sum_prefix(s.drop_last(), i);
    } else {
        assert(s.take(i) =~= s);
    }
}

/// Records that segment `idx` has encoded `frames` of its `segment_frames`
/// frames (progress never moves back) and returns the frames encoded over
/// all segments, at most `total_frames`. `None` when there is no such
/// segment.
pub fn record_segment_progress(
    slots: &mut Vec<u64>,
    idx: usize,
    frames: u64,
    segment_frames: u64,
    total_frames: u64,
) -> (r: Option<u64>)
    requires
        sum_u64(old(slots)@) + segment_frames <= u64::MAX,
    ensures
        idx >= old(slots)@.len() ==> r is None && final(slots)@ == old(slots)@,
        idx < old(slots)@.len() ==> {
            let capped = if frames <= segment_frames {
                frames
            } else {
                segment_frames
            };
            let slot = if old(slots)@[idx as int] >= capped {
                old(slots)@[idx as int]
            } else {
                capped
            };
            &&& final(slots)@ == old(slots)@.update(idx as int, slot)
            &&& r == Some(
                if sum_u64(final(slots)@) <= total_frames {
                    sum_u64(final(slots)@) as u64
                } else {
                    total_frames
                },
            )
        },
{
    if idx >= slots.len() {
        return None;
    }
    let capped = if frames <= segment_frames {
        frames
    } else {
        segment_frames
    };
    let old_slot = slots[idx];
    let slot = if old_slot >= capped {
        old_slot
    } else {
        capped
    };
    let ghost before = slots@;
    slots.set(idx, slot);
    proof {
        lemma_sum_update(before, idx as int, slot);
        lemma_sum_prefix(before, idx as int);
        assert(before[idx as int] <= sum_u64(before)) by {
            lemma_sum_update(before, idx as int, 0);
        }
        if old_slot >= capped {
        }
    }
    let mut total: u64 = 0;
    let mut i: usize = 0;
    while i < slots.len()
        invariant
            i <= slots@.len(),
            slots@ == before.update(idx as int, slot),
            sum_u64(slots@) <= u64::MAX,
            total == sum_u64(slots@.take(i as int)),
        decreases slots.len() - i,
    {
        proof {
            assert(slots@.take(i + 1).drop_last() =~= slots@.take(i as int));
            lemma_sum_prefix(slots@, i + 1);
        }
        total = total + slots[i];
        i = i + 1;
    }
    proof {
        assert(slots@.take(slots@.len() as int) =~= slots@);
    }
    Some(
        if total <= total_frames {
            total
        } else {
            total_frames
        },
    )
}

/// An event line a segment worker prints, as far as progress goes.
#[derive(Debug, Clone, Copy, PartialEq, Eq)]
pub enum SegmentEvent {
    /// `record.frame` with its global frame number.
    Frame { seq: u64 },
    /// `record.encode_progress` with the frames it reports encoded.
    EncodeProgress { frames_encoded: u64 },
    /// `record.done`.
    Done,
    /// Any other line.
    Other,
}

/// The frames of a segment (starting at global frame `segment_start`, with
/// `segment_frames` frames) that an event says are done, or `None` when the
/// event says nothing of them.
pub open spec fn spec_segment_local_frames(event: SegmentEvent, segment_start: u64, segment_frames: u64) -> Option<u64> {
    match event {
        SegmentEvent::Frame { seq } => if seq < segment_start {
            None
        } else {
            let local = seq - segment_start + 1;
            Some(if local <= segment_frames { local as u64 } else { segment_frames })
        },
        SegmentEvent::EncodeProgress { frames_encoded } => {
            let local = if frames_encoded > segment_start { frames_encoded - segment_start } else { frames_encoded as int };
            Some(if local <= segment_frames { local as u64 } else { segment_frames })
        },
        SegmentEvent::Done => Some(segment_frames),
        SegmentEvent::Other => None,
    }
}

/// How far a segment is, by one of its worker's events: a frame counts
/// itself and all before it in the segment, an encode report counts what
/// it reports (made local to the segment when it is global), the end counts
/// the whole segment; never more than the segment has.
pub fn segment_local_frames(event: SegmentEvent, segment_start: u64, segment_frames: u64) -> (r: Option<u64>)
    ensures
        r == spec_segment_local_frames(event, segment_start, segment_frames),
{
    match event {
        SegmentEvent::Frame { seq } => {
            if seq < segment_start {
                None
            } else {
                let local: u64 = (seq - segment_start).saturating_add(1);
                Some(if local <= segment_frames { local } else { segment_frames })
            }
        },
        SegmentEvent::EncodeProgress { frames_encoded } => {
            let local: u64 = if frames_encoded > segment_start { frames_encoded - segment_start } else { frames_encoded };
            Some(if local <= segment_frames { local } else { segment_frames })
        },
        SegmentEvent::Done => Some(segment_frames),
        SegmentEvent::Other => None,
    }
}

} // verus!
