use capy_core::mp4::h264::{parse_sps_vui, read_ue, strip_emulation_prevention, BitPos};
use capy_core::mp4::moov::{iter_children, parse_mvhd, Mp4Fault};
use capy_core::mp4::verdict::{
    assert_codec, assert_moov_front, assert_primaries, ascii_code, inspect_mp4, VerifyError,
};

fn bx(kind: &[u8; 4], body: &[u8]) -> Vec<u8> {
    let mut v = ((body.len() + 8) as u32).to_be_bytes().to_vec();
    v.extend_from_slice(kind);
    v.extend_from_slice(body);
    v
}

fn mvhd(timescale: u32, duration: u32) -> Vec<u8> {
    let mut b = vec![0u8; 20];
    b[12..16].copy_from_slice(&timescale.to_be_bytes());
    b[16..20].copy_from_slice(&duration.to_be_bytes());
    bx(b"mvhd", &b)
}

fn video_trak(width: u16, height: u16, colr: bool) -> Vec<u8> {
    let mut mdhd = vec![0u8; 16];
    mdhd[12..16].copy_from_slice(&90000u32.to_be_bytes());
    let mut hdlr = vec![0u8; 12];
    hdlr[8..12].copy_from_slice(b"vide");
    let mut entry = vec![0u8; 78];
    entry[24..26].copy_from_slice(&width.to_be_bytes());
    entry[26..28].copy_from_slice(&height.to_be_bytes());
    if colr {
        let mut c = b"nclx".to_vec();
        c.extend_from_slice(&[0, 1, 0, 1, 0, 1, 0]);
        entry.extend(bx(b"colr", &c));
    }
    let mut stsd = vec![0, 0, 0, 0, 0, 0, 0, 1];
    stsd.extend(bx(b"avc1", &entry));
    let mut stts = vec![0, 0, 0, 0, 0, 0, 0, 1];
    stts.extend_from_slice(&60u32.to_be_bytes());
    stts.extend_from_slice(&1500u32.to_be_bytes());
    let stbl = [bx(b"stsd", &stsd), bx(b"stts", &stts)].concat();
    let minf = bx(b"stbl", &stbl);
    let mdia = [bx(b"mdhd", &mdhd), bx(b"hdlr", &hdlr), bx(b"minf", &minf)].concat();
    bx(b"trak", &bx(b"mdia", &mdia))
}

fn file(moov_first: bool) -> Vec<u8> {
    let ftyp = bx(b"ftyp", b"isom\0\0\0\x01");
    let moov = bx(b"moov", &[mvhd(1000, 2000), video_trak(1920, 1080, true)].concat());
    let mdat = bx(b"mdat", &[7u8; 1000]);
    if moov_first {
        [ftyp, moov, mdat].concat()
    } else {
        [ftyp, mdat, moov].concat()
    }
}

#[test]
fn inspects_a_progressive_h264_file() {
    let f = inspect_mp4(&file(true)).unwrap();
    assert!(f.moov_front);
    assert_eq!(f.moov_offset, 16);
    assert_eq!(f.ftyp_brand, "isom");
    assert_eq!(f.codec, "avc1");
    assert_eq!((f.width, f.height), (1920, 1080));
    assert_eq!(f.duration_ms, 2000);
    assert_eq!(f.bit_rate, 4000);
    assert_eq!(f.time_scale, 90000);
    assert_eq!((f.sample_count, f.avg_sample_duration), (60, 1500));
    assert_eq!(f.color_primaries, "bt709");
    assert!(!f.has_b_frames);
    assert!(assert_moov_front(&f).pass);
    assert!(assert_codec(&f).pass);
    assert!(assert_primaries(&f).pass);
}

#[test]
fn moov_after_mdat_is_reported() {
    let f = inspect_mp4(&file(false)).unwrap();
    assert!(!f.moov_front);
    let a = assert_moov_front(&f);
    assert!(!a.pass);
    assert_eq!(a.actual, format!("moov@{} mdat@16", f.moov_offset));
}

#[test]
fn malformed_files_are_refused() {
    let ftyp = bx(b"ftyp", b"isom\0\0\0\x01");
    let mdat = bx(b"mdat", &[0u8; 8]);
    assert!(matches!(inspect_mp4(&[ftyp.clone(), mdat.clone()].concat()), Err(VerifyError::Malformed(Mp4Fault::NoMoov))));
    let moov = bx(b"moov", &mvhd(1000, 1000));
    assert!(matches!(
        inspect_mp4(&[ftyp, moov, mdat].concat()),
        Err(VerifyError::Malformed(Mp4Fault::NoVideoTrak))
    ));
    assert_eq!(parse_mvhd(&[0, 0]), Err(Mp4Fault::MvhdTooShort));
    assert!(iter_children(&[0, 0, 0, 4, b'f', b'r', b'e', b'e']).is_err());
}

#[test]
fn h264_bit_reading() {
    assert_eq!(strip_emulation_prevention(&[0, 0, 3, 1, 0, 0, 3]), vec![0, 0, 1, 0, 0]);
    let data = [0b0100_0000u8];
    let mut p = BitPos { byte: 0, bit: 0 };
    assert_eq!(read_ue(&data, &mut p), Some(1));
    assert_eq!(ascii_code(u32::from_be_bytes(*b"av\x01c")).into_iter().collect::<String>(), "av?c");
    assert_eq!(parse_sps_vui(&[]), None);
}
