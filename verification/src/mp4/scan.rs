//! The top-level box scan of an MP4 file: where `ftyp`, `moov` and `mdat`
//! are, and whether `moov` comes before the media data.

use vstd::prelude::*;
use super::bytes::{be32, be64, read_be32, read_be64, FOURCC_FTYP, FOURCC_MDAT, FOURCC_MOOV};
use super::moov::{u64_max, Mp4Fault};

verus! {

/// What the top-level atom scan has collected so far.
#[derive(Debug, Clone, Copy)]
pub struct TopLevel {
    /// Major brand of the last `ftyp` whose brand field fits the file.
    pub ftyp_brand: Option<u32>,
    /// Offset of the last `moov` atom and the byte range of its body.
    pub moov: Option<(u64, usize, usize)>,
    /// Offset and body size of the first `mdat` atom.
    pub mdat: Option<(u64, u64)>,
}

pub open spec fn scan_measure(len: int, off: int) -> int {
    if off > len {
        0
    } else {
        len - off + 1
    }
}

/// `(size, header_len)` of the top-level atom at `off`.
pub open spec fn atom_header(d: Seq<u8>, off: int) -> Result<(int, int), Mp4Fault> {
    let size32 = be32(d, off);
    if size32 == 1 {
        if off + 16 > d.len() {
            Err(Mp4Fault::TruncatedLargesize(off as u64))
        } else {
            Ok((be64(d, off + 8), 16))
        }
    } else if size32 == 0 {
        Ok((d.len() - off, 8))
    } else {
        Ok((size32, 8))
    }
}

/// What one top-level atom adds to the scan.
pub open spec fn atom_step(d: Seq<u8>, off: int, size: int, hlen: int, acc: TopLevel) -> Result<
    TopLevel,
    Mp4Fault,
> {
    let kind = be32(d, off + 4);
    if kind == FOURCC_FTYP {
        Ok(
            if off + hlen + 4 <= d.len() {
                TopLevel { ftyp_brand: Some(be32(d, off + hlen) as u32), ..acc }
            } else {
                acc
            },
        )
    } else if kind == FOURCC_MOOV {
        if size - hlen > usize::MAX {
            Err(Mp4Fault::MoovTooLarge((size - hlen) as u64))
        } else if off + size > d.len() {
            Err(Mp4Fault::ShortMoovRead { read: (d.len() - off - hlen) as u64, wanted: (size - hlen) as u64 })
        } else {
            Ok(TopLevel { moov: Some((off as u64, (off + hlen) as usize, (off + size) as usize)), ..acc })
        }
    } else if kind == FOURCC_MDAT && acc.mdat is None {
        Ok(TopLevel { mdat: Some((off as u64, (size - hlen) as u64)), ..acc })
    } else {
        Ok(acc)
    }
}

/// One top-level atom at `off`: the offset of the next atom (saturating at
/// `u64::MAX`) and the updated scan.
pub open spec fn scan_one(d: Seq<u8>, off: int, acc: TopLevel) -> Result<(int, TopLevel), Mp4Fault> {
    match atom_header(d, off) {
        Err(e) => Err(e),
        Ok((size, hlen)) => {
            if size < hlen {
                Err(
                    Mp4Fault::AtomSizeBelowHeader {
                        size: size as u64,
                        header: hlen as u64,
                        offset: off as u64,
                    },
                )
            } else {
                match atom_step(d, off, size, hlen, acc) {
                    Err(e) => Err(e),
                    Ok(next_acc) => Ok(
                        (
                            if off + size > u64_max() {
                                u64_max()
                            } else {
                                off + size
                            },
                            next_acc,
                        ),
                    ),
                }
            }
        },
    }
}

/// Scans top-level atoms from `off` to the end of the file `d`.
pub open spec fn scan_from(d: Seq<u8>, off: int, acc: TopLevel) -> Result<TopLevel, Mp4Fault>
    decreases scan_measure(d.len() as int, off),
{
    if off < 0 || off + 8 > d.len() {
        Ok(acc)
    } else {
        match scan_one(d, off, acc) {
            Err(e) => Err(e),
            Ok((next, next_acc)) => {
                if next <= off {
                    Err(Mp4Fault::NonAdvancingAtom(off as u64))
                } else {
                    scan_from(d, next, next_acc)
                }
            },
        }
    }
}

/// The whole scan, with the final checks for `moov` and `mdat`.
pub open spec fn spec_scan(d: Seq<u8>) -> Result<TopLevel, Mp4Fault> {
    match scan_from(d, 0, TopLevel { ftyp_brand: None, moov: None, mdat: None }) {
        Err(e) => Err(e),
        Ok(t) => {
            if t.moov is None {
                Err(Mp4Fault::NoMoov)
            } else if t.mdat is None {
                Err(Mp4Fault::NoMdat)
            } else if t.moov.unwrap().1 == t.moov.unwrap().2 {
                Err(Mp4Fault::EmptyMoov)
            } else {
                Ok(t)
            }
        },
    }
}

fn scan_one_exec(d: &[u8], off: u64, acc: TopLevel) -> (r: Result<(u64, TopLevel), Mp4Fault>)
    requires
        off + 8 <= d@.len(),
        acc.moov matches Some((_, s, e)) ==> s <= e <= d@.len(),
    ensures
        match scan_one(d@, off as int, acc) {
            Ok((n, a)) => r matches Ok((n2, a2)) && n2 == n && a2 == a,
            Err(e) => r == Err::<(u64, TopLevel), Mp4Fault>(e),
        },
        r matches Ok((_, a)) ==> (a.moov matches Some((_, s, e)) ==> s <= e <= d@.len()),
{
    let len = d.len();
    let mut acc = acc;
    let o = off as usize;
    let size32 = read_be32(d, o);
    let kind = read_be32(d, o + 4);
    let size: u64;
    let hlen: u64;
    if size32 == 1 {
        if len - o < 16 {
            return Err(Mp4Fault::TruncatedLargesize(off));
        }
        size = read_be64(d, o + 8);
        hlen = 16;
    } else if size32 == 0 {
        size = (len - o) as u64;
        hlen = 8;
    } else {
        size = size32 as u64;
        hlen = 8;
    }
    if size < hlen {
        return Err(Mp4Fault::AtomSizeBelowHeader { size, header: hlen, offset: off });
    }
    if kind == FOURCC_FTYP {
        if (len - o) as u64 >= hlen + 4 {
            acc.ftyp_brand = Some(read_be32(d, o + hlen as usize));
        }
    } else if kind == FOURCC_MOOV {
        let body_len = size - hlen;
        if body_len > usize::MAX as u64 {
            return Err(Mp4Fault::MoovTooLarge(body_len));
        }
        if size > (len - o) as u64 {
            return Err(Mp4Fault::ShortMoovRead { read: (len - o) as u64 - hlen, wanted: body_len });
        }
        acc.moov = Some((off, o + hlen as usize, o + size as usize));
    } else if kind == FOURCC_MDAT && acc.mdat.is_none() {
        acc.mdat = Some((off, size - hlen));
    }
    let next = if off > u64::MAX - size {
        u64::MAX
    } else {
        off + size
    };
    Ok((next, acc))
}

/// Scans the top-level atoms of an MP4 file held in `d`.
pub fn scan_top_level(d: &[u8]) -> (r: Result<TopLevel, Mp4Fault>)
    ensures
        r == spec_scan(d@),
        r matches Ok(t) ==> (t.moov matches Some((_, s, e)) && s <= e <= d@.len()),
{
    let len = d.len();
    let mut acc = TopLevel { ftyp_brand: None, moov: None, mdat: None };
    let mut off: u64 = 0;
    let ghost init = acc;
    while off <= len as u64 && len as u64 - off >= 8
        invariant
            len == d@.len(),
            init == (TopLevel { ftyp_brand: None, moov: None, mdat: None }),
            scan_from(d@, 0, init) == scan_from(d@, off as int, acc),
            acc.moov matches Some((_, s, e)) ==> s <= e <= len,
        decreases scan_measure(len as int, off as int),
    {
        let (next, a) = match scan_one_exec(d, off, acc) {
            Err(e) => {
                return Err(e);
            },
            Ok(p) => p,
        };
        if next <= off {
            return Err(Mp4Fault::NonAdvancingAtom(off));
        }
        off = next;
        acc = a;
    }
    let t = acc;
    match t.moov {
        None => Err(Mp4Fault::NoMoov),
        Some((_, s, e)) => {
            if t.mdat.is_none() {
                Err(Mp4Fault::NoMdat)
            } else if s == e {
                Err(Mp4Fault::EmptyMoov)
            } else {
                Ok(t)
            }
        },
    }
}

} // verus!
