//! Big-endian integers read out of byte slices, and the four-character
//! codes of the boxes the reader knows.

use vstd::prelude::*;

verus! {


/// Big-endian 16-bit value of `b[i..i+2]`.
pub open spec fn be16(b: Seq<u8>, i: int) -> int {
    b[i] * 256 + b[i + 1]
}

/// Big-endian 32-bit value of `b[i..i+4]`.
pub open spec fn be32(b: Seq<u8>, i: int) -> int {
    b[i] * 16777216 + b[i + 1] * 65536 + b[i + 2] * 256 + b[i + 3]
}

/// Big-endian 64-bit value of `b[i..i+8]`.
pub open spec fn be64(b: Seq<u8>, i: int) -> int {
    be32(b, i) * 4294967296 + be32(b, i + 4)
}

pub fn read_be16(b: &[u8], i: usize) -> (r: u16)
    requires
        i + 2 <= b@.len(),
    ensures
        r as int == be16(b@, i as int),
{
    (b[i] as u16) * 256 + (b[i + 1] as u16)
}

pub fn read_be32(b: &[u8], i: usize) -> (r: u32)
    requires
        i + 4 <= b@.len(),
    ensures
        r as int == be32(b@, i as int),
{
    (b[i] as u32) * 16777216 + (b[i + 1] as u32) * 65536 + (b[i + 2] as u32) * 256 + (
    b[i + 3] as u32)
}

pub fn read_be64(b: &[u8], i: usize) -> (r: u64)
    requires
        i + 8 <= b@.len(),
    ensures
        r as int == be64(b@, i as int),
{
    assert(b@.len() == b.len());
    let hi = read_be32(b, i) as u64;
    let lo = read_be32(b, i + 4) as u64;
    hi * 4294967296 + lo
}

pub const FOURCC_FTYP: u32 = 0x66747970;
pub const FOURCC_MOOV: u32 = 0x6d6f6f76;
pub const FOURCC_MDAT: u32 = 0x6d646174;
pub const FOURCC_MVHD: u32 = 0x6d766864;
pub const FOURCC_TRAK: u32 = 0x7472616b;
pub const FOURCC_MDIA: u32 = 0x6d646961;
pub const FOURCC_MDHD: u32 = 0x6d646864;
pub const FOURCC_HDLR: u32 = 0x68646c72;
pub const FOURCC_MINF: u32 = 0x6d696e66;
pub const FOURCC_STBL: u32 = 0x7374626c;
pub const FOURCC_STSD: u32 = 0x73747364;
pub const FOURCC_STTS: u32 = 0x73747473;
pub const FOURCC_CTTS: u32 = 0x63747473;
pub const FOURCC_AVCC: u32 = 0x61766343;
pub const FOURCC_COLR: u32 = 0x636f6c72;
pub const FOURCC_VIDE: u32 = 0x76696465;
pub const FOURCC_NCLX: u32 = 0x6e636c78;
pub const FOURCC_NCLC: u32 = 0x6e636c63;
pub const FOURCC_AVC1: u32 = 0x61766331;

} // verus!
