//! MP4 container inspection: top-level atom scan, `moov` sample-table parsing
//! and H.264 SPS colour decoding, all as functions on bytes.

pub mod bytes;
pub mod h264;
pub mod info;
pub mod moov;
pub mod scan;
pub mod verdict;
