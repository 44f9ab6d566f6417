//! The children of a box body, the movie header, and the faults a
//! malformed file is reported with.

use vstd::prelude::*;
use super::bytes::{be32, be64, read_be32, read_be64, FOURCC_VIDE};

verus! {

/// A child box of a container: its four-character code and the byte range
/// `[start, end)` of its body inside the parent's body.
#[derive(Debug, Clone, Copy, PartialEq, Eq, Structural)]
pub struct Mp4Child {
    pub kind: u32,
    pub start: usize,
    pub end: usize,
}

/// The `(size, header_len)` of the box starting at `i`; `None` when a 64-bit
/// size field is cut off by the end of the parent.
pub open spec fn child_header(body: Seq<u8>, i: int) -> Option<(int, int)> {
    let size32 = be32(body, i);
    if size32 == 1 {
        if i + 16 > body.len() {
            None
        } else {
            Some((be64(body, i + 8), 16))
        }
    } else if size32 == 0 {
        Some((body.len() - i, 8))
    } else {
        Some((size32, 8))
    }
}

pub open spec fn prepend_child(c: Mp4Child, rest: Result<Seq<Mp4Child>, Mp4Fault>) -> Result<
    Seq<Mp4Child>,
    Mp4Fault,
> {
    match rest {
        Ok(r) => Ok(seq![c] + r),
        Err(e) => Err(e),
    }
}

/// The children of a container body, read from offset `i` on. A child whose
/// size is below its header or runs past the parent is a `ChildSize` fault.
pub open spec fn children_from(body: Seq<u8>, i: int) -> Result<Seq<Mp4Child>, Mp4Fault>
    decreases body.len() - i,
{
    if i < 0 || i + 8 > body.len() {
        Ok(Seq::empty())
    } else {
        match child_header(body, i) {
            None => Err(Mp4Fault::ChildLargesizeTruncated),
            Some((size, hlen)) => {
                if size < hlen || i + size > body.len() {
                    Err(Mp4Fault::ChildSize { size: size as u64, at: i as u64 })
                } else {
                    prepend_child(
                        Mp4Child {
                            kind: be32(body, i + 4) as u32,
                            start: (i + hlen) as usize,
                            end: (i + size) as usize,
                        },
                        children_from(body, i + size),
                    )
                }
            },
        }
    }
}

/// The children of a whole container body.
pub open spec fn children(body: Seq<u8>) -> Result<Seq<Mp4Child>, Mp4Fault> {
    children_from(body, 0)
}

pub open spec fn append_res(prefix: Seq<Mp4Child>, rest: Result<Seq<Mp4Child>, Mp4Fault>) -> Result<
    Seq<Mp4Child>,
    Mp4Fault,
> {
    match rest {
        Ok(r) => Ok(prefix + r),
        Err(e) => Err(e),
    }
}

/// Every child's body range lies inside the parent body.
pub open spec fn children_in_bounds(cs: Seq<Mp4Child>, len: int) -> bool {
    forall|k: int| 0 <= k < cs.len() ==> (#[trigger] cs[k]).start <= cs[k].end <= len
}

/// Lists the direct children of a container body.
pub fn iter_children(body: &[u8]) -> (r: Result<Vec<Mp4Child>, Mp4Fault>)
    ensures
        match children(body@) {
            Ok(cs) => r matches Ok(v) && v@ == cs,
            Err(e) => r == Err::<Vec<Mp4Child>, Mp4Fault>(e),
        },
        r matches Ok(v) ==> children_in_bounds(v@, body@.len() as int),
{
    let n = body.len();
    let mut out: Vec<Mp4Child> = Vec::new();
    let mut i: usize = 0;
    while n - i >= 8
        invariant
            n == body@.len(),
            i <= n,
            children(body@) == append_res(out@, children_from(body@, i as int)),
            children_in_bounds(out@, n as int),
        decreases n - i,
    {
        let size32 = read_be32(body, i);
        let kind = read_be32(body, i + 4);
        let size: u64;
        let hlen: u64;
        if size32 == 1 {
            if n - i < 16 {
                return Err(Mp4Fault::ChildLargesizeTruncated);
            }
            size = read_be64(body, i + 8);
            hlen = 16;
        } else if size32 == 0 {
            size = (n - i) as u64;
            hlen = 8;
        } else {
            size = size32 as u64;
            hlen = 8;
        }
        if size < hlen || size > (n - i) as u64 {
            return Err(Mp4Fault::ChildSize { size, at: i as u64 });
        }
        let child = Mp4Child { kind, start: i + hlen as usize, end: i + size as usize };
        proof {
            assert(children_from(body@, i as int) == prepend_child(
                child,
                children_from(body@, i + size),
            ));
            match children_from(body@, i + size) {
                Ok(r) => {
                    assert(out@.push(child) + r =~= out@ + (seq![child] + r));
                },
                Err(_) => {},
            }
        }
        out.push(child);
        i = i + size as usize;
    }
    proof {
        assert(out@ + Seq::<Mp4Child>::empty() =~= out@);
    }
    Ok(out)
}

/// Largest value of a `u64`, as an integer.
pub open spec fn u64_max() -> int {
    0xffff_ffff_ffff_ffffint
}

/// `x` clamped to the `u64` range from above (saturating arithmetic).
pub open spec fn sat(x: int) -> int {
    if x > u64_max() {
        u64_max()
    } else {
        x
    }
}

pub fn sat_add(a: u64, b: u64) -> (r: u64)
    ensures
        r == sat(a + b),
{
    if a > u64::MAX - b {
        u64::MAX
    } else {
        a + b
    }
}

pub fn sat_mul(a: u64, b: u64) -> (r: u64)
    ensures
        r == sat(a * b),
{
    if a == 0 || b == 0 {
        proof {
            assert(a * b == 0) by (nonlinear_arith)
                requires
                    a == 0 || b == 0,
            ;
        }
        0
    } else if a > u64::MAX / b {
        proof {
            assert(a * b > u64::MAX) by (nonlinear_arith)
                requires
                    b > 0,
                    a > u64::MAX / b,
            ;
        }
        u64::MAX
    } else {
        proof {
            assert(a * b <= u64::MAX) by (nonlinear_arith)
                requires
                    b > 0,
                    a <= u64::MAX / b,
            ;
        }
        a * b
    }
}

/// Why a box could not be read.
#[derive(Debug, Clone, Copy, PartialEq, Eq, Structural)]
pub enum Mp4Fault {
    /// A child box's size is below its header or runs past its parent.
    ChildSize { size: u64, at: u64 },
    /// A 64-bit child size is cut off by the end of its parent.
    ChildLargesizeTruncated,
    MvhdTooShort,
    MvhdV1TooShort,
    MvhdV0TooShort,
    MdhdTooShort,
    MdhdTruncated,
    StsdTooShort,
    StsdEntrySize,
    SttsTooShort,
    SttsEntryTruncated,
    NoVideoTrak,
    /// A 64-bit top-level size is cut off at the given offset.
    TruncatedLargesize(u64),
    /// A top-level atom's size is below its header length.
    AtomSizeBelowHeader { size: u64, header: u64, offset: u64 },
    MoovTooLarge(u64),
    /// The `moov` body runs past the end of the file: the bytes there are,
    /// and the body length declared.
    ShortMoovRead { read: u64, wanted: u64 },
    NonAdvancingAtom(u64),
    NoMoov,
    NoMdat,
    EmptyMoov,
}

/// `mvhd`: `(timescale, duration)` for version 1 or version 0 layouts.
#[verifier::opaque]
pub open spec fn spec_mvhd(b: Seq<u8>) -> Result<(u32, u64), Mp4Fault> {
    if b.len() < 4 {
        Err(Mp4Fault::MvhdTooShort)
    } else if b[0] == 1 {
        if b.len() < 32 {
            Err(Mp4Fault::MvhdV1TooShort)
        } else {
            Ok((be32(b, 20) as u32, be64(b, 24) as u64))
        }
    } else if b.len() < 20 {
        Err(Mp4Fault::MvhdV0TooShort)
    } else {
        Ok((be32(b, 12) as u32, be32(b, 16) as u64))
    }
}

pub fn parse_mvhd(b: &[u8]) -> (r: Result<(u32, u64), Mp4Fault>)
    ensures
        r == spec_mvhd(b@),
{
    reveal(spec_mvhd);
    if b.len() < 4 {
        return Err(Mp4Fault::MvhdTooShort);
    }
    if b[0] == 1 {
        if b.len() < 32 {
            return Err(Mp4Fault::MvhdV1TooShort);
        }
        Ok((read_be32(b, 20), read_be64(b, 24)))
    } else {
        if b.len() < 20 {
            return Err(Mp4Fault::MvhdV0TooShort);
        }
        Ok((read_be32(b, 12), read_be32(b, 16) as u64))
    }
}

/// The movie-header law: a version 0 `mvhd` body of at least 20 bytes has
/// its timescale in bytes 12..16 and its duration in bytes 16..20; a
/// version 1 body of at least 32 bytes has them in bytes 20..24 and 24..32;
/// all big-endian.
pub proof fn lemma_mvhd_fields(b: Seq<u8>)
    requires
        b.len() >= 4,
    ensures
        b[0] != 1 && b.len() >= 20 ==> spec_mvhd(b) == Ok::<(u32, u64), Mp4Fault>((
            (b[12] as int * 0x100_0000 + b[13] as int * 0x1_0000 + b[14] as int * 0x100 + b[15] as int) as u32,
            (b[16] as int * 0x100_0000 + b[17] as int * 0x1_0000 + b[18] as int * 0x100 + b[19] as int) as u64,
        )),
        b[0] == 1 && b.len() >= 32 ==> spec_mvhd(b) == Ok::<(u32, u64), Mp4Fault>((
            (b[20] as int * 0x100_0000 + b[21] as int * 0x1_0000 + b[22] as int * 0x100 + b[23] as int) as u32,
            ((b[24] as int * 0x100_0000 + b[25] as int * 0x1_0000 + b[26] as int * 0x100 + b[27] as int)
                * 0x1_0000_0000 + (b[28] as int * 0x100_0000 + b[29] as int * 0x1_0000 + b[30] as int * 0x100
                + b[31] as int)) as u64,
        )),
{
    reveal(spec_mvhd);
}

/// `mdhd`: the media timescale.
#[verifier::opaque]
pub open spec fn spec_mdhd_timescale(b: Seq<u8>) -> Result<u32, Mp4Fault> {
    if b.len() < 4 {
        Err(Mp4Fault::MdhdTooShort)
    } else {
        let off: int = if b[0] == 1 {
            20
        } else {
            12
        };
        if b.len() < off + 4 {
            Err(Mp4Fault::MdhdTruncated)
        } else {
            Ok(be32(b, off) as u32)
        }
    }
}

pub fn parse_mdhd_timescale(b: &[u8]) -> (r: Result<u32, Mp4Fault>)
    ensures
        r == spec_mdhd_timescale(b@),
{
    reveal(spec_mdhd_timescale);
    if b.len() < 4 {
        return Err(Mp4Fault::MdhdTooShort);
    }
    let off: usize = if b[0] == 1 {
        20
    } else {
        12
    };
    if b.len() < off + 4 {
        return Err(Mp4Fault::MdhdTruncated);
    }
    Ok(read_be32(b, off))
}

/// `hdlr` names the video handler.
pub open spec fn spec_hdlr_is_video(b: Seq<u8>) -> bool {
    b.len() >= 12 && be32(b, 8) == FOURCC_VIDE
}

pub fn hdlr_is_video(b: &[u8]) -> (r: bool)
    ensures
        r == spec_hdlr_is_video(b@),
{
    b.len() >= 12 && read_be32(b, 8) == FOURCC_VIDE
}

/// Running `(sample count, total duration)` of the first `k` `stts` entries,
/// each sum saturating at `u64::MAX`.
pub open spec fn stts_totals(b: Seq<u8>, k: nat) -> (int, int)
    decreases k,
{
    if k == 0 {
        (0, 0)
    } else {
        let prev = stts_totals(b, (k - 1) as nat);
        let at = 8 + 8 * (k - 1);
        let n = be32(b, at);
        let d = be32(b, at + 4);
        (sat(prev.0 + n), sat(prev.1 + sat(n * d)))
    }
}

/// `stts`: `(sample count, average sample duration)`.
#[verifier::opaque]
pub open spec fn spec_stts(b: Seq<u8>) -> Result<(u64, u64), Mp4Fault> {
    if b.len() < 8 {
        Err(Mp4Fault::SttsTooShort)
    } else if 8 + 8 * be32(b, 4) > b.len() {
        Err(Mp4Fault::SttsEntryTruncated)
    } else {
        let t = stts_totals(b, be32(b, 4) as nat);
        Ok((t.0 as u64, if t.0 == 0 { 0 } else { (t.1 / t.0) as u64 }))
    }
}

proof fn lemma_stts_totals_bounded(b: Seq<u8>, k: nat)
    ensures
        0 <= stts_totals(b, k).0 <= u64_max(),
        0 <= stts_totals(b, k).1 <= u64_max(),
    decreases k,
{
    if k > 0 {
        lemma_stts_totals_bounded(b, (k - 1) as nat);
        let at = 8 + 8 * (k - 1);
        let n = be32(b, at);
        let d = be32(b, at + 4);
        assert(0 <= be32(b, at)) by {
            assert(0 <= b[at] && 0 <= b[at + 1] && 0 <= b[at + 2] && 0 <= b[at + 3]);
        }
        assert(0 <= be32(b, at + 4)) by {
            assert(0 <= b[at + 4] && 0 <= b[at + 5] && 0 <= b[at + 6] && 0 <= b[at + 7]);
        }
        assert(0 <= n * d) by (nonlinear_arith)
            requires
                0 <= n,
                0 <= d,
        ;
    }
}

pub fn parse_stts(b: &[u8]) -> (r: Result<(u64, u64), Mp4Fault>)
    ensures
        r == spec_stts(b@),
{
    reveal(spec_stts);
    if b.len() < 8 {
        return Err(Mp4Fault::SttsTooShort);
    }
    let count = read_be32(b, 4) as usize;
    let mut total_samples: u64 = 0;
    let mut total_duration: u64 = 0;
    let mut i: usize = 8;
    let mut k: usize = 0;
    while k < count
        invariant
            b@.len() >= 8,
            count == be32(b@, 4),
            k <= count,
            i == 8 + 8 * k,
            i <= b@.len(),
            (total_samples as int, total_duration as int) == stts_totals(b@, k as nat),
        decreases count - k,
    {
        if b.len() - i < 8 {
            proof {
                assert(8 + 8 * be32(b@, 4) > b@.len()) by (nonlinear_arith)
                    requires
                        i == 8 + 8 * k,
                        k < count,
                        count == be32(b@, 4),
                        b@.len() - i < 8,
                ;
            }
            proof {
                reveal(spec_stts);
            }
            return Err(Mp4Fault::SttsEntryTruncated);
        }
        let n = read_be32(b, i) as u64;
        let d = read_be32(b, i + 4) as u64;
        total_samples = sat_add(total_samples, n);
        total_duration = sat_add(total_duration, sat_mul(n, d));
        i = i + 8;
        k = k + 1;
    }
    proof {
        lemma_stts_totals_bounded(b@, count as nat);
        assert(8 + 8 * be32(b@, 4) <= b@.len());
    }
    let avg = if total_samples == 0 {
        0
    } else {
        total_duration / total_samples
    };
    Ok((total_samples, avg))
}

/// The composition offset of `ctts` entry `k`.
pub open spec fn ctts_offset(b: Seq<u8>, k: int) -> int {
    be32(b, 12 + 8 * k)
}

/// `ctts` has a non-zero composition offset in an entry that fits the box.
#[verifier::opaque]
pub open spec fn spec_ctts_has_b(b: Seq<u8>) -> bool {
    b.len() >= 8 && exists|k: int|
        0 <= k < be32(b, 4) && 16 + 8 * k <= b.len() && #[trigger] ctts_offset(b, k) != 0
}

pub fn ctts_has_b_frames(b: &[u8]) -> (r: bool)
    ensures
        r == spec_ctts_has_b(b@),
{
    reveal(spec_ctts_has_b);
    if b.len() < 8 {
        return false;
    }
    let count = read_be32(b, 4) as usize;
    let mut i: usize = 8;
    let mut k: usize = 0;
    while k < count
        invariant
            b@.len() >= 8,
            count == be32(b@, 4),
            k <= count,
            i == 8 + 8 * k,
            i <= b@.len(),
            forall|j: int| 0 <= j < k ==> #[trigger] ctts_offset(b@, j) == 0,
        decreases count - k,
    {
        if b.len() - i < 8 {
            proof {
                assert forall|j: int|
                    0 <= j < be32(b@, 4) && 16 + 8 * j <= b@.len() implies #[trigger] ctts_offset(b@, j) == 0 by {
                    assert(j < k);
                }
                reveal(spec_ctts_has_b);
            }
            return false;
        }
        let off = read_be32(b, i + 4);
        if off != 0 {
            assert(ctts_offset(b@, k as int) != 0);
            proof {
                reveal(spec_ctts_has_b);
            }
            return true;
        }
        i = i + 8;
        k = k + 1;
    }
    proof {
        assert forall|j: int|
            0 <= j < be32(b@, 4) && 16 + 8 * j <= b@.len() implies #[trigger] ctts_offset(b@, j) == 0 by {
            assert(j < k);
        }
    }
    false
}

} // verus!
