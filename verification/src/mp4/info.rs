//! What the `moov` box says of the video track: sample description,
//! colour information, sample timing and composition offsets.

use vstd::prelude::*;
use super::bytes::{
    be16, be32, read_be16, read_be32, FOURCC_AVCC, FOURCC_COLR, FOURCC_CTTS, FOURCC_HDLR,
    FOURCC_MDHD, FOURCC_MDIA, FOURCC_MINF, FOURCC_MVHD, FOURCC_NCLC, FOURCC_NCLX, FOURCC_STBL,
    FOURCC_STSD, FOURCC_STTS, FOURCC_TRAK,
};
use super::h264::{parse_sps_vui, sps_colour, strip_emulation_prevention, strip_from};
use super::moov::{
    children, children_in_bounds, ctts_has_b_frames, hdlr_is_video, iter_children, parse_mdhd_timescale,
    parse_mvhd, parse_stts, spec_ctts_has_b, spec_hdlr_is_video, spec_mdhd_timescale, spec_mvhd,
    spec_stts, Mp4Child, Mp4Fault,
};

verus! {

/// What the `moov` box says about the first video track.
#[derive(Debug, Clone, Copy, PartialEq, Eq, Structural)]
pub struct MoovInfo {
    pub movie_timescale: u32,
    pub duration_units: u64,
    pub media_timescale: u32,
    /// Four-character code of the first sample entry of the video track.
    pub codec: Option<u32>,
    pub width: u32,
    pub height: u32,
    /// Colour code points; `None` where no box declared them.
    pub color_primaries: Option<u16>,
    pub transfer: Option<u16>,
    pub matrix: Option<u16>,
    pub has_b_frames: bool,
    pub avg_sample_duration: u64,
    pub sample_count: u64,
}

pub open spec fn empty_info() -> MoovInfo {
    MoovInfo {
        movie_timescale: 0,
        duration_units: 0,
        media_timescale: 0,
        codec: None,
        width: 0,
        height: 0,
        color_primaries: None,
        transfer: None,
        matrix: None,
        has_b_frames: false,
        avg_sample_duration: 0,
        sample_count: 0,
    }
}

/// The body of child `c` inside its parent body `b`.
pub open spec fn child_body(b: Seq<u8>, c: Mp4Child) -> Seq<u8> {
    b.subrange(c.start as int, c.end as int)
}

// ───────────────────────── colr / avcC ─────────────────────────

/// `colr` of type `nclx`/`nclc` fills the colour codes that are still unset.
#[verifier::opaque]
pub open spec fn spec_colr(b: Seq<u8>, info: MoovInfo) -> MoovInfo {
    if b.len() < 4 {
        info
    } else if (be32(b, 0) == FOURCC_NCLX || be32(b, 0) == FOURCC_NCLC) && b.len() >= 10 {
        MoovInfo {
            color_primaries: if info.color_primaries is None {
                Some(be16(b, 4) as u16)
            } else {
                info.color_primaries
            },
            transfer: if info.transfer is None {
                Some(be16(b, 6) as u16)
            } else {
                info.transfer
            },
            matrix: if info.matrix is None {
                Some(be16(b, 8) as u16)
            } else {
                info.matrix
            },
            ..info
        }
    } else {
        info
    }
}

pub fn parse_colr(b: &[u8], info: &mut MoovInfo)
    ensures
        *final(info) == spec_colr(b@, *old(info)),
{
    reveal(spec_colr);
    if b.len() < 4 {
        return;
    }
    let kind = read_be32(b, 0);
    if (kind == FOURCC_NCLX || kind == FOURCC_NCLC) && b.len() >= 10 {
        let prim = read_be16(b, 4);
        let tf = read_be16(b, 6);
        let mat = read_be16(b, 8);
        if info.color_primaries.is_none() {
            info.color_primaries = Some(prim);
        }
        if info.transfer.is_none() {
            info.transfer = Some(tf);
        }
        if info.matrix.is_none() {
            info.matrix = Some(mat);
        }
    }
}

/// The `colr` law: a colour box of type `nclx` or `nclc` with at least ten
/// bytes carries, big-endian and in this order, the colour primaries at
/// bytes 4..6, the transfer characteristics at 6..8 and the matrix
/// coefficients at 8..10 (ISO/IEC 23001-8); each code the box fills is the
/// one at its own place, a code already set is kept, and nothing else of
/// the info changes.
pub proof fn lemma_colr_codes(b: Seq<u8>, info: MoovInfo)
    requires
        b.len() >= 10,
        b[0] == 0x6e && b[1] == 0x63 && b[2] == 0x6c && (b[3] == 0x78 || b[3] == 0x63),
    ensures
        ({
            let r = spec_colr(b, info);
            &&& r.color_primaries == if info.color_primaries is None {
                Some((b[4] as int * 256 + b[5] as int) as u16)
            } else {
                info.color_primaries
            }
            &&& r.transfer == if info.transfer is None {
                Some((b[6] as int * 256 + b[7] as int) as u16)
            } else {
                info.transfer
            }
            &&& r.matrix == if info.matrix is None {
                Some((b[8] as int * 256 + b[9] as int) as u16)
            } else {
                info.matrix
            }
            &&& r == MoovInfo { color_primaries: r.color_primaries, transfer: r.transfer, matrix: r.matrix, ..info }
        }),
{
    reveal(spec_colr);
    assert(be32(b, 0) == FOURCC_NCLX || be32(b, 0) == FOURCC_NCLC);
}

/// `avcC`: the first SPS's VUI colour description, when decodable, replaces
/// the colour codes.
#[verifier::opaque]
pub open spec fn spec_avcc(b: Seq<u8>, info: MoovInfo) -> MoovInfo {
    if b.len() < 6 || b[5] & 0x1Fu8 == 0 || b.len() < 8 {
        info
    } else {
        let sps_len = be16(b, 6);
        if 8 + sps_len > b.len() || sps_len < 2 {
            info
        } else {
            match sps_colour(strip_from(b.subrange(9, 8 + sps_len), 0)) {
                None => info,
                Some((prim, tf, mat)) => MoovInfo {
                    color_primaries: Some(prim as u16),
                    transfer: Some(tf as u16),
                    matrix: Some(mat as u16),
                    ..info
                },
            }
        }
    }
}

pub fn parse_avc_c(b: &[u8], info: &mut MoovInfo)
    ensures
        *final(info) == spec_avcc(b@, *old(info)),
{
    reveal(spec_avcc);
    if b.len() < 6 {
        return;
    }
    let num_sps = b[5] & 0x1F;
    if num_sps == 0 {
        return;
    }
    if b.len() < 8 {
        return;
    }
    let sps_len = read_be16(b, 6) as usize;
    if sps_len > b.len() - 8 || sps_len < 2 {
        return;
    }
    let rbsp = strip_emulation_prevention(&b[9..8 + sps_len]);
    match parse_sps_vui(rbsp.as_slice()) {
        None => {},
        Some((prim, tf, mat)) => {
            info.color_primaries = Some(prim as u16);
            info.transfer = Some(tf as u16);
            info.matrix = Some(mat as u16);
        },
    }
}


// ───────────────────────── stsd ─────────────────────────

/// Applies the `avcC` / `colr` boxes of a visual sample entry, in order.
pub open spec fn fold_visual(b: Seq<u8>, cs: Seq<Mp4Child>, info: MoovInfo) -> MoovInfo
    decreases cs.len(),
{
    if cs.len() == 0 {
        info
    } else {
        let c = cs[0];
        let next = if c.kind == FOURCC_AVCC {
            spec_avcc(child_body(b, c), info)
        } else if c.kind == FOURCC_COLR {
            spec_colr(child_body(b, c), info)
        } else {
            info
        };
        fold_visual(b, cs.drop_first(), next)
    }
}

/// The boxes after the 78-byte visual sample entry header; a malformed box
/// list there is ignored.
pub open spec fn spec_visual_boxes(entry: Seq<u8>, info: MoovInfo) -> MoovInfo {
    if entry.len() <= 78 {
        info
    } else {
        let inner = entry.subrange(78, entry.len() as int);
        match children(inner) {
            Err(_) => info,
            Ok(cs) => fold_visual(inner, cs, info),
        }
    }
}

/// `stsd`: codec, frame size and colour of the first sample entry.
#[verifier::opaque]
pub open spec fn spec_stsd(b: Seq<u8>, info: MoovInfo) -> Result<MoovInfo, Mp4Fault> {
    if b.len() < 8 {
        Err(Mp4Fault::StsdTooShort)
    } else if b.len() < 16 {
        Ok(info)
    } else {
        let size = be32(b, 8);
        if size < 8 || 8 + size > b.len() {
            Err(Mp4Fault::StsdEntrySize)
        } else {
            let entry = b.subrange(16, 8 + size);
            let i1 = MoovInfo { codec: Some(be32(b, 12) as u32), ..info };
            let i2 = if entry.len() >= 32 {
                MoovInfo { width: be16(entry, 24) as u32, height: be16(entry, 26) as u32, ..i1 }
            } else {
                i1
            };
            Ok(spec_visual_boxes(entry, i2))
        }
    }
}

fn parse_visual_sample_entry_boxes(entry: &[u8], info: &mut MoovInfo)
    ensures
        *final(info) == spec_visual_boxes(entry@, *old(info)),
{
    if entry.len() <= 78 {
        return;
    }
    let inner = &entry[78..entry.len()];
    let cs = match iter_children(inner) {
        Err(_) => {
            return;
        },
        Ok(cs) => cs,
    };
    let ghost start_info = *info;
    let mut k: usize = 0;
    proof {
        assert(cs@.subrange(0, cs@.len() as int) =~= cs@);
    }
    while k < cs.len()
        invariant
            children(inner@) == Ok::<Seq<Mp4Child>, Mp4Fault>(cs@),
            children_in_bounds(cs@, inner@.len() as int),
            k <= cs@.len(),
            fold_visual(inner@, cs@, start_info) == fold_visual(
                inner@,
                cs@.subrange(k as int, cs@.len() as int),
                *info,
            ),
        decreases cs.len() - k,
    {
        let c = cs[k];
        let body = &inner[c.start..c.end];
        if c.kind == FOURCC_AVCC {
            parse_avc_c(body, info);
        } else if c.kind == FOURCC_COLR {
            parse_colr(body, info);
        }
        proof {
            assert(cs@.subrange(k as int, cs@.len() as int).drop_first() =~= cs@.subrange(
                k + 1,
                cs@.len() as int,
            ));
        }
        k = k + 1;
    }
    proof {
        assert(cs@.subrange(0, cs@.len() as int) =~= cs@);
    }
}

pub fn parse_stsd(b: &[u8], info: &mut MoovInfo) -> (r: Result<(), Mp4Fault>)
    ensures
        match spec_stsd(b@, *old(info)) {
            Ok(i) => r is Ok && *final(info) == i,
            Err(e) => r == Err::<(), Mp4Fault>(e),
        },
{
    reveal(spec_stsd);
    if b.len() < 8 {
        return Err(Mp4Fault::StsdTooShort);
    }
    if b.len() < 16 {
        return Ok(());
    }
    let size = read_be32(b, 8) as usize;
    let kind = read_be32(b, 12);
    if size < 8 || size > b.len() - 8 {
        return Err(Mp4Fault::StsdEntrySize);
    }
    let entry = &b[16..8 + size];
    info.codec = Some(kind);
    if entry.len() >= 32 {
        info.width = read_be16(entry, 24) as u32;
        info.height = read_be16(entry, 26) as u32;
    }
    parse_visual_sample_entry_boxes(entry, info);
    Ok(())
}


// ───────────────────────── stbl / minf ─────────────────────────

/// One `stbl` child applied to `info`.
pub open spec fn stbl_step(body: Seq<u8>, kind: u32, info: MoovInfo) -> Result<MoovInfo, Mp4Fault> {
    if kind == FOURCC_STSD {
        spec_stsd(body, info)
    } else if kind == FOURCC_STTS {
        match spec_stts(body) {
            Err(e) => Err(e),
            Ok((n, avg)) => Ok(MoovInfo { sample_count: n, avg_sample_duration: avg, ..info }),
        }
    } else if kind == FOURCC_CTTS {
        Ok(MoovInfo { has_b_frames: info.has_b_frames || spec_ctts_has_b(body), ..info })
    } else {
        Ok(info)
    }
}

pub open spec fn fold_stbl(b: Seq<u8>, cs: Seq<Mp4Child>, info: MoovInfo) -> Result<
    MoovInfo,
    Mp4Fault,
>
    decreases cs.len(),
{
    if cs.len() == 0 {
        Ok(info)
    } else {
        match stbl_step(child_body(b, cs[0]), cs[0].kind, info) {
            Err(e) => Err(e),
            Ok(next) => fold_stbl(b, cs.drop_first(), next),
        }
    }
}

/// `stbl`: sample description, timing and composition offsets.
pub open spec fn spec_stbl(b: Seq<u8>, info: MoovInfo) -> Result<MoovInfo, Mp4Fault> {
    match children(b) {
        Err(e) => Err(e),
        Ok(cs) => fold_stbl(b, cs, info),
    }
}

pub fn parse_stbl(b: &[u8], info: &mut MoovInfo) -> (r: Result<(), Mp4Fault>)
    ensures
        match spec_stbl(b@, *old(info)) {
            Ok(i) => r is Ok && *final(info) == i,
            Err(e) => r == Err::<(), Mp4Fault>(e),
        },
{
    let cs = iter_children(b)?;
    let ghost start_info = *info;
    let mut k: usize = 0;
    proof {
        assert(cs@.subrange(0, cs@.len() as int) =~= cs@);
    }
    while k < cs.len()
        invariant
            children(b@) == Ok::<Seq<Mp4Child>, Mp4Fault>(cs@),
            children_in_bounds(cs@, b@.len() as int),
            k <= cs@.len(),
            start_info == *old(info),
            spec_stbl(b@, start_info) == fold_stbl(
                b@,
                cs@.subrange(k as int, cs@.len() as int),
                *info,
            ),
        decreases cs.len() - k,
    {
        let c = cs[k];
        let body = &b[c.start..c.end];
        let ghost prev = *info;
        proof {
            assert(cs@.subrange(k as int, cs@.len() as int).drop_first() =~= cs@.subrange(
                k + 1,
                cs@.len() as int,
            ));
            assert(cs@.subrange(k as int, cs@.len() as int)[0] == c);
            assert(fold_stbl(b@, cs@.subrange(k as int, cs@.len() as int), prev) == match stbl_step(
                body@,
                c.kind,
                prev,
            ) {
                Err(e) => Err(e),
                Ok(next) => fold_stbl(b@, cs@.subrange(k + 1, cs@.len() as int), next),
            });
        }
        if c.kind == FOURCC_STSD {
            let r = parse_stsd(body, info);
            if r.is_err() {
                return r;
            }
        } else if c.kind == FOURCC_STTS {
            match parse_stts(body) {
                Err(e) => {
                    return Err(e);
                },
                Ok((n, avg)) => {
                    info.sample_count = n;
                    info.avg_sample_duration = avg;
                },
            }
        } else if c.kind == FOURCC_CTTS {
            if ctts_has_b_frames(body) {
                info.has_b_frames = true;
            }
        }
        k = k + 1;
    }
    Ok(())
}

pub open spec fn fold_minf(b: Seq<u8>, cs: Seq<Mp4Child>, info: MoovInfo) -> Result<
    MoovInfo,
    Mp4Fault,
>
    decreases cs.len(),
{
    if cs.len() == 0 {
        Ok(info)
    } else if cs[0].kind == FOURCC_STBL {
        match spec_stbl(child_body(b, cs[0]), info) {
            Err(e) => Err(e),
            Ok(next) => fold_minf(b, cs.drop_first(), next),
        }
    } else {
        fold_minf(b, cs.drop_first(), info)
    }
}

/// `minf`: every `stbl` child in order.
pub open spec fn spec_minf(b: Seq<u8>, info: MoovInfo) -> Result<MoovInfo, Mp4Fault> {
    match children(b) {
        Err(e) => Err(e),
        Ok(cs) => fold_minf(b, cs, info),
    }
}

pub fn parse_minf(b: &[u8], info: &mut MoovInfo) -> (r: Result<(), Mp4Fault>)
    ensures
        match spec_minf(b@, *old(info)) {
            Ok(i) => r is Ok && *final(info) == i,
            Err(e) => r == Err::<(), Mp4Fault>(e),
        },
{
    let cs = iter_children(b)?;
    let ghost start_info = *info;
    let mut k: usize = 0;
    proof {
        assert(cs@.subrange(0, cs@.len() as int) =~= cs@);
    }
    while k < cs.len()
        invariant
            children(b@) == Ok::<Seq<Mp4Child>, Mp4Fault>(cs@),
            children_in_bounds(cs@, b@.len() as int),
            k <= cs@.len(),
            start_info == *old(info),
            spec_minf(b@, start_info) == fold_minf(
                b@,
                cs@.subrange(k as int, cs@.len() as int),
                *info,
            ),
        decreases cs.len() - k,
    {
        let c = cs[k];
        proof {
            assert(cs@.subrange(k as int, cs@.len() as int).drop_first() =~= cs@.subrange(
                k + 1,
                cs@.len() as int,
            ));
            assert(cs@.subrange(k as int, cs@.len() as int)[0] == c);
        }
        if c.kind == FOURCC_STBL {
            let r = parse_stbl(&b[c.start..c.end], info);
            if r.is_err() {
                return r;
            }
        }
        k = k + 1;
    }
    Ok(())
}


// ───────────────────────── mdia / trak / moov ─────────────────────────

/// One `mdia` child applied to `(info, video handler seen)`.
pub open spec fn mdia_step(body: Seq<u8>, kind: u32, info: MoovInfo, vid: bool) -> Result<
    (MoovInfo, bool),
    Mp4Fault,
> {
    if kind == FOURCC_MDHD {
        match spec_mdhd_timescale(body) {
            Err(e) => Err(e),
            Ok(ts) => Ok((MoovInfo { media_timescale: ts, ..info }, vid)),
        }
    } else if kind == FOURCC_HDLR {
        Ok((info, vid || spec_hdlr_is_video(body)))
    } else if kind == FOURCC_MINF && vid {
        match spec_minf(body, info) {
            Err(e) => Err(e),
            Ok(next) => Ok((next, vid)),
        }
    } else {
        Ok((info, vid))
    }
}

pub open spec fn fold_mdia(b: Seq<u8>, cs: Seq<Mp4Child>, info: MoovInfo, vid: bool) -> Result<
    (MoovInfo, bool),
    Mp4Fault,
>
    decreases cs.len(),
{
    if cs.len() == 0 {
        Ok((info, vid))
    } else {
        match mdia_step(child_body(b, cs[0]), cs[0].kind, info, vid) {
            Err(e) => Err(e),
            Ok((next, v)) => fold_mdia(b, cs.drop_first(), next, v),
        }
    }
}

/// `mdia`: media timescale, and the sample tables of a `minf` that follows a
/// video `hdlr`; a track without a video handler keeps no media timescale.
pub open spec fn spec_mdia(b: Seq<u8>, info: MoovInfo) -> Result<MoovInfo, Mp4Fault> {
    match children(b) {
        Err(e) => Err(e),
        Ok(cs) => match fold_mdia(b, cs, info, false) {
            Err(e) => Err(e),
            Ok((i, vid)) => Ok(
                if vid {
                    i
                } else {
                    MoovInfo { media_timescale: 0, ..i }
                },
            ),
        },
    }
}

pub fn parse_mdia(b: &[u8], info: &mut MoovInfo) -> (r: Result<(), Mp4Fault>)
    ensures
        match spec_mdia(b@, *old(info)) {
            Ok(i) => r is Ok && *final(info) == i,
            Err(e) => r == Err::<(), Mp4Fault>(e),
        },
{
    let cs = iter_children(b)?;
    let ghost start_info = *info;
    let mut is_video = false;
    let mut k: usize = 0;
    proof {
        assert(cs@.subrange(0, cs@.len() as int) =~= cs@);
    }
    while k < cs.len()
        invariant
            children(b@) == Ok::<Seq<Mp4Child>, Mp4Fault>(cs@),
            children_in_bounds(cs@, b@.len() as int),
            k <= cs@.len(),
            start_info == *old(info),
            fold_mdia(b@, cs@, start_info, false) == fold_mdia(
                b@,
                cs@.subrange(k as int, cs@.len() as int),
                *info,
                is_video,
            ),
        decreases cs.len() - k,
    {
        let c = cs[k];
        let body = &b[c.start..c.end];
        let ghost prev = *info;
        let ghost prev_vid = is_video;
        proof {
            assert(cs@.subrange(k as int, cs@.len() as int).drop_first() =~= cs@.subrange(
                k + 1,
                cs@.len() as int,
            ));
            assert(cs@.subrange(k as int, cs@.len() as int)[0] == c);
            assert(fold_mdia(b@, cs@.subrange(k as int, cs@.len() as int), prev, prev_vid)
                == match mdia_step(body@, c.kind, prev, prev_vid) {
                Err(e) => Err(e),
                Ok((next, v)) => fold_mdia(b@, cs@.subrange(k + 1, cs@.len() as int), next, v),
            });
        }
        if c.kind == FOURCC_MDHD {
            match parse_mdhd_timescale(body) {
                Err(e) => {
                    return Err(e);
                },
                Ok(ts) => {
                    info.media_timescale = ts;
                },
            }
        } else if c.kind == FOURCC_HDLR {
            if hdlr_is_video(body) {
                is_video = true;
            }
        } else if c.kind == FOURCC_MINF && is_video {
            let r = parse_minf(body, info);
            if r.is_err() {
                return r;
            }
        }
        k = k + 1;
    }
    if !is_video {
        info.media_timescale = 0;
    }
    Ok(())
}

pub open spec fn fold_trak(b: Seq<u8>, cs: Seq<Mp4Child>, info: MoovInfo) -> Result<
    MoovInfo,
    Mp4Fault,
>
    decreases cs.len(),
{
    if cs.len() == 0 {
        Ok(info)
    } else if cs[0].kind == FOURCC_MDIA {
        match spec_mdia(child_body(b, cs[0]), info) {
            Err(e) => Err(e),
            Ok(next) => fold_trak(b, cs.drop_first(), next),
        }
    } else {
        fold_trak(b, cs.drop_first(), info)
    }
}

/// `trak`: every `mdia` child in order.
pub open spec fn spec_trak(b: Seq<u8>, info: MoovInfo) -> Result<MoovInfo, Mp4Fault> {
    match children(b) {
        Err(e) => Err(e),
        Ok(cs) => fold_trak(b, cs, info),
    }
}

pub fn parse_trak(b: &[u8], info: &mut MoovInfo) -> (r: Result<(), Mp4Fault>)
    ensures
        match spec_trak(b@, *old(info)) {
            Ok(i) => r is Ok && *final(info) == i,
            Err(e) => r == Err::<(), Mp4Fault>(e),
        },
{
    let cs = iter_children(b)?;
    let ghost start_info = *info;
    let mut k: usize = 0;
    proof {
        assert(cs@.subrange(0, cs@.len() as int) =~= cs@);
    }
    while k < cs.len()
        invariant
            children(b@) == Ok::<Seq<Mp4Child>, Mp4Fault>(cs@),
            children_in_bounds(cs@, b@.len() as int),
            k <= cs@.len(),
            start_info == *old(info),
            spec_trak(b@, start_info) == fold_trak(
                b@,
                cs@.subrange(k as int, cs@.len() as int),
                *info,
            ),
        decreases cs.len() - k,
    {
        let c = cs[k];
        proof {
            assert(cs@.subrange(k as int, cs@.len() as int).drop_first() =~= cs@.subrange(
                k + 1,
                cs@.len() as int,
            ));
            assert(cs@.subrange(k as int, cs@.len() as int)[0] == c);
        }
        if c.kind == FOURCC_MDIA {
            let r = parse_mdia(&b[c.start..c.end], info);
            if r.is_err() {
                return r;
            }
        }
        k = k + 1;
    }
    Ok(())
}

/// One `moov` child applied to `info`: `mvhd` timing, and the first `trak`
/// that yields a codec.
pub open spec fn moov_step(body: Seq<u8>, kind: u32, info: MoovInfo) -> Result<MoovInfo, Mp4Fault> {
    if kind == FOURCC_MVHD {
        match spec_mvhd(body) {
            Err(e) => Err(e),
            Ok((ts, dur)) => Ok(MoovInfo { movie_timescale: ts, duration_units: dur, ..info }),
        }
    } else if kind == FOURCC_TRAK && info.codec is None {
        spec_trak(body, info)
    } else {
        Ok(info)
    }
}

pub open spec fn fold_moov(b: Seq<u8>, cs: Seq<Mp4Child>, info: MoovInfo) -> Result<
    MoovInfo,
    Mp4Fault,
>
    decreases cs.len(),
{
    if cs.len() == 0 {
        Ok(info)
    } else {
        match moov_step(child_body(b, cs[0]), cs[0].kind, info) {
            Err(e) => Err(e),
            Ok(next) => fold_moov(b, cs.drop_first(), next),
        }
    }
}

/// The `moov` body read into a `MoovInfo`; no video track is a fault.
pub open spec fn spec_moov(b: Seq<u8>) -> Result<MoovInfo, Mp4Fault> {
    match children(b) {
        Err(e) => Err(e),
        Ok(cs) => match fold_moov(b, cs, empty_info()) {
            Err(e) => Err(e),
            Ok(i) => if i.codec is None {
                Err(Mp4Fault::NoVideoTrak)
            } else {
                Ok(i)
            },
        },
    }
}

/// Parses the body of a `moov` box.
pub fn parse_moov(b: &[u8]) -> (r: Result<MoovInfo, Mp4Fault>)
    ensures
        r == spec_moov(b@),
{
    let cs = iter_children(b)?;
    let mut info = MoovInfo {
        movie_timescale: 0,
        duration_units: 0,
        media_timescale: 0,
        codec: None,
        width: 0,
        height: 0,
        color_primaries: None,
        transfer: None,
        matrix: None,
        has_b_frames: false,
        avg_sample_duration: 0,
        sample_count: 0,
    };
    let mut k: usize = 0;
    proof {
        assert(cs@.subrange(0, cs@.len() as int) =~= cs@);
    }
    while k < cs.len()
        invariant
            children(b@) == Ok::<Seq<Mp4Child>, Mp4Fault>(cs@),
            children_in_bounds(cs@, b@.len() as int),
            k <= cs@.len(),
            fold_moov(b@, cs@, empty_info()) == fold_moov(
                b@,
                cs@.subrange(k as int, cs@.len() as int),
                info,
            ),
        decreases cs.len() - k,
    {
        let c = cs[k];
        let body = &b[c.start..c.end];
        let ghost prev = info;
        proof {
            assert(cs@.subrange(k as int, cs@.len() as int).drop_first() =~= cs@.subrange(
                k + 1,
                cs@.len() as int,
            ));
            assert(cs@.subrange(k as int, cs@.len() as int)[0] == c);
            assert(fold_moov(b@, cs@.subrange(k as int, cs@.len() as int), prev) == match moov_step(
                body@,
                c.kind,
                prev,
            ) {
                Err(e) => Err(e),
                Ok(next) => fold_moov(b@, cs@.subrange(k + 1, cs@.len() as int), next),
            });
        }
        if c.kind == FOURCC_MVHD {
            match parse_mvhd(body) {
                Err(e) => {
                    return Err(e);
                },
                Ok((ts, dur)) => {
                    info.movie_timescale = ts;
                    info.duration_units = dur;
                },
            }
        } else if c.kind == FOURCC_TRAK && info.codec.is_none() {
            let r = parse_trak(body, &mut info);
            if let Err(e) = r {
                return Err(e);
            }
        }
        k = k + 1;
    }
    if info.codec.is_none() {
        return Err(Mp4Fault::NoVideoTrak);
    }
    Ok(info)
}

} // verus!
