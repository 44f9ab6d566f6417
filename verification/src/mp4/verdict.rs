//! The facts `verify` reports of an MP4 file and the assertions it checks
//! them against.

use vstd::prelude::*;
use super::info::{parse_moov, spec_moov, MoovInfo};
use super::moov::{sat, Mp4Fault};
use super::scan::{scan_top_level, spec_scan, TopLevel};
use crate::text::{
    byte_char, contains_chars, decimal, decimal_chars, seq_contains, string_from_chars,
};

verus! {

/// Errors of MP4 verification.
#[derive(Debug, Clone, PartialEq, Eq)]
pub enum VerifyError {
    /// The file could not be read (reported by the caller that reads it).
    Io(String),
    /// The bytes are not a well-formed MP4 of the kind checked here.
    Malformed(Mp4Fault),
    /// The codec is not supported.
    UnsupportedCodec(String),
}

/// How a byte of a four-character code is shown: printable ASCII as itself,
/// anything else as `?`.
pub open spec fn shown(b: int) -> char {
    if 0x20 <= b <= 0x7e {
        b as char
    } else {
        '?'
    }
}

/// The four-character code `code` as text.
pub open spec fn fourcc_text(code: u32) -> Seq<char> {
    seq![
        shown((code / 16777216) as int),
        shown(((code / 65536) % 256) as int),
        shown(((code / 256) % 256) as int),
        shown((code % 256) as int),
    ]
}

fn shown_exec(b: u32) -> (c: char)
    requires
        b < 256,
    ensures
        c == shown(b as int),
{
    if 0x20 <= b && b <= 0x7e {
        byte_char(b as u8)
    } else {
        '?'
    }
}

/// Renders a four-character code.
pub fn ascii_code(code: u32) -> (v: Vec<char>)
    ensures
        v@ == fourcc_text(code),
{
    let mut v: Vec<char> = Vec::new();
    v.push(shown_exec(code / 16777216));
    v.push(shown_exec((code / 65536) % 256));
    v.push(shown_exec((code / 256) % 256));
    v.push(shown_exec(code % 256));
    proof {
        assert(v@ =~= fourcc_text(code));
    }
    v
}

pub open spec fn bt709() -> Seq<char> {
    seq!['b', 't', '7', '0', '9']
}

/// `code` followed by the decimal number, for code points without a name.
pub open spec fn code_text(c: u16) -> Seq<char> {
    seq!['c', 'o', 'd', 'e'] + decimal(c as nat)
}

/// Name of a colour-primaries code point.
pub open spec fn primaries_text(c: u16) -> Seq<char> {
    if c == 1 {
        bt709()
    } else if c == 9 {
        seq!['b', 't', '2', '0', '2', '0']
    } else {
        code_text(c)
    }
}

/// Name of a transfer-characteristics code point.
pub open spec fn transfer_text(c: u16) -> Seq<char> {
    if c == 1 {
        bt709()
    } else if c == 16 {
        seq!['s', 'm', 'p', 't', 'e', '2', '0', '8', '4']
    } else if c == 18 {
        seq!['h', 'l', 'g']
    } else {
        code_text(c)
    }
}

/// Name of a matrix-coefficients code point.
pub open spec fn matrix_text(c: u16) -> Seq<char> {
    if c == 1 {
        bt709()
    } else if c == 9 {
        seq!['b', 't', '2', '0', '2', '0', 'n', 'c', 'l']
    } else {
        code_text(c)
    }
}

/// The colour names the verifier reports, as data: primaries 1 and 9 are
/// `bt709` and `bt2020`; transfer 1, 16 and 18 are `bt709`, `smpte2084`
/// and `hlg`; matrix 1 and 9 are `bt709` and `bt2020ncl`; any other code is
/// `code` and its decimal number.
pub proof fn lemma_colour_names(c: u16)
    ensures
        primaries_text(c) == if c == 1 {
            "bt709"@
        } else if c == 9 {
            "bt2020"@
        } else {
            "code"@ + decimal(c as nat)
        },
        transfer_text(c) == if c == 1 {
            "bt709"@
        } else if c == 16 {
            "smpte2084"@
        } else if c == 18 {
            "hlg"@
        } else {
            "code"@ + decimal(c as nat)
        },
        matrix_text(c) == if c == 1 {
            "bt709"@
        } else if c == 9 {
            "bt2020ncl"@
        } else {
            "code"@ + decimal(c as nat)
        },
{
    reveal_strlit("bt709");
    reveal_strlit("bt2020");
    reveal_strlit("smpte2084");
    reveal_strlit("hlg");
    reveal_strlit("bt2020ncl");
    reveal_strlit("code");
    assert("bt709"@ =~= bt709());
}

fn code_chars(c: u16) -> (v: Vec<char>)
    ensures
        v@ == code_text(c),
{
    let mut v = vec!['c', 'o', 'd', 'e'];
    let mut d = decimal_chars(c as u64);
    v.append(&mut d);
    v
}

pub fn describe_primaries(c: u16) -> (v: Vec<char>)
    ensures
        v@ == primaries_text(c),
{
    if c == 1 {
        vec!['b', 't', '7', '0', '9']
    } else if c == 9 {
        vec!['b', 't', '2', '0', '2', '0']
    } else {
        code_chars(c)
    }
}

pub fn describe_transfer(c: u16) -> (v: Vec<char>)
    ensures
        v@ == transfer_text(c),
{
    if c == 1 {
        vec!['b', 't', '7', '0', '9']
    } else if c == 16 {
        vec!['s', 'm', 'p', 't', 'e', '2', '0', '8', '4']
    } else if c == 18 {
        vec!['h', 'l', 'g']
    } else {
        code_chars(c)
    }
}

pub fn describe_matrix(c: u16) -> (v: Vec<char>)
    ensures
        v@ == matrix_text(c),
{
    if c == 1 {
        vec!['b', 't', '7', '0', '9']
    } else if c == 9 {
        vec!['b', 't', '2', '0', '2', '0', 'n', 'c', 'l']
    } else {
        code_chars(c)
    }
}

/// A colour code's name, or the empty text where no box declared it.
pub open spec fn opt_text(o: Option<u16>, f: spec_fn(u16) -> Seq<char>) -> Seq<char> {
    match o {
        None => Seq::empty(),
        Some(c) => f(c),
    }
}

/// `duration_units * 1000 / movie_timescale` with the product wrapping
/// modulo 2^64, as the recorder's release build computes it; 0 without a
/// timescale.
pub open spec fn spec_duration_ms(info: MoovInfo) -> u64 {
    if info.movie_timescale == 0 {
        0
    } else {
        (((info.duration_units * 1000) % 0x1_0000_0000_0000_0000) / (
        info.movie_timescale as int)) as u64
    }
}

/// `mdat_size * 8 * 1000 / duration_ms`, products saturating; 0 without a
/// duration.
pub open spec fn spec_bit_rate(mdat_size: u64, duration_ms: u64) -> u64 {
    if duration_ms == 0 {
        0
    } else {
        (sat(sat(mdat_size * 8) * 1000) / (duration_ms as int)) as u64
    }
}

/// Everything the verifier reads from an MP4 file that is not a ratio of
/// timescales: the frame rate is `time_scale / avg_sample_duration`.
#[derive(Debug, Clone)]
pub struct Mp4Facts {
    pub file_size: u64,
    pub moov_front: bool,
    pub moov_offset: u64,
    pub mdat_offset: u64,
    pub ftyp_brand: String,
    pub codec: String,
    pub width: u32,
    pub height: u32,
    pub bit_rate: u64,
    pub color_primaries: String,
    pub transfer: String,
    pub ycbcr_matrix: String,
    pub has_b_frames: bool,
    pub time_scale: u32,
    pub duration_ms: u64,
    pub sample_count: u64,
    pub avg_sample_duration: u64,
}

/// The facts of a file `d` whose top level scanned to `t` and whose `moov`
/// body parsed to `info`.
pub open spec fn facts_of(f: Mp4Facts, d: Seq<u8>, t: TopLevel, info: MoovInfo) -> bool {
    let (moov_off, _, _) = t.moov.unwrap();
    let (mdat_off, mdat_size) = t.mdat.unwrap();
    &&& f.file_size == d.len()
    &&& f.moov_offset == moov_off
    &&& f.mdat_offset == mdat_off
    &&& f.moov_front == (moov_off < mdat_off)
    &&& f.ftyp_brand@ == match t.ftyp_brand {
        None => Seq::<char>::empty(),
        Some(b) => fourcc_text(b),
    }
    &&& f.codec@ == fourcc_text(info.codec.unwrap())
    &&& f.width == info.width
    &&& f.height == info.height
    &&& f.duration_ms == spec_duration_ms(info)
    &&& f.bit_rate == spec_bit_rate(mdat_size, spec_duration_ms(info))
    &&& f.color_primaries@ == opt_text(info.color_primaries, |c: u16| primaries_text(c))
    &&& f.transfer@ == opt_text(info.transfer, |c: u16| transfer_text(c))
    &&& f.ycbcr_matrix@ == opt_text(info.matrix, |c: u16| matrix_text(c))
    &&& f.has_b_frames == info.has_b_frames
    &&& f.time_scale == info.media_timescale
    &&& f.sample_count == info.sample_count
    &&& f.avg_sample_duration == info.avg_sample_duration
}

/// The outcome of verifying the bytes `d` of an MP4 file.
pub open spec fn verify_outcome(d: Seq<u8>, r: Result<Mp4Facts, VerifyError>) -> bool {
    match spec_scan(d) {
        Err(e) => r == Err::<Mp4Facts, VerifyError>(VerifyError::Malformed(e)),
        Ok(t) => {
            let (_, s, e) = t.moov.unwrap();
            match spec_moov(d.subrange(s as int, e as int)) {
                Err(fault) => r == Err::<Mp4Facts, VerifyError>(VerifyError::Malformed(fault)),
                Ok(info) => r matches Ok(f) && facts_of(f, d, t, info),
            }
        },
    }
}

fn opt_string(o: Option<u16>, which: u8) -> (s: String)
    ensures
        which == 0 ==> s@ == opt_text(o, |c: u16| primaries_text(c)),
        which == 1 ==> s@ == opt_text(o, |c: u16| transfer_text(c)),
        which == 2 ==> s@ == opt_text(o, |c: u16| matrix_text(c)),
{
    match o {
        None => String::new(),
        Some(c) => {
            let v = if which == 0 {
                describe_primaries(c)
            } else if which == 1 {
                describe_transfer(c)
            } else {
                describe_matrix(c)
            };
            string_from_chars(v.as_slice())
        },
    }
}

/// The duration law: when the movie header of a verified file has a
/// timescale `ts > 0` and a duration of `u` units (with `u * 1000` in
/// range), the reported length is `u * 1000 / ts` milliseconds, rounded
/// down: `duration_ms * ts <= u * 1000 < (duration_ms + 1) * ts`. The bit
/// rate is then the mdat's bits over that length, rounded down: with
/// `bits = min(mdat_size * 8000, u64::MAX)`,
/// `bit_rate * duration_ms <= bits < (bit_rate + 1) * duration_ms`.
pub proof fn lemma_duration_follows_timescale(
    d: Seq<u8>,
    r: Result<Mp4Facts, VerifyError>,
    t: TopLevel,
    info: MoovInfo,
)
    requires
        verify_outcome(d, r),
        spec_scan(d) == Ok::<TopLevel, Mp4Fault>(t),
        spec_moov(d.subrange(t.moov.unwrap().1 as int, t.moov.unwrap().2 as int)) == Ok::<MoovInfo, Mp4Fault>(info),
        info.movie_timescale > 0,
        info.duration_units * 1000 < 0x1_0000_0000_0000_0000,
    ensures
        r matches Ok(f) && {
            let ts = info.movie_timescale as int;
            let u = info.duration_units as int;
            let mdat_size = t.mdat.unwrap().1 as int;
            let bits = if mdat_size * 8000 <= 0xffff_ffff_ffff_ffff {
                mdat_size * 8000
            } else {
                0xffff_ffff_ffff_ffff
            };
            &&& f.duration_ms * ts <= u * 1000
            &&& u * 1000 < (f.duration_ms + 1) * ts
            &&& f.duration_ms > 0 ==> f.bit_rate * f.duration_ms <= bits && bits < (f.bit_rate + 1) * f.duration_ms
        },
{
    let f = r->Ok_0;
    let ts = info.movie_timescale as int;
    let x = info.duration_units * 1000;
    assert(x % 0x1_0000_0000_0000_0000 == x) by (nonlinear_arith)
        requires 0 <= x < 0x1_0000_0000_0000_0000int;
    let q = x / ts;
    assert(q * ts <= x && x < (q + 1) * ts) by (nonlinear_arith)
        requires ts > 0, q == x / ts, x >= 0;
    assert(f.duration_ms == q);
    let mdat_size = t.mdat.unwrap().1 as int;
    let bits = sat(sat(mdat_size * 8) * 1000);
    assert(bits == if mdat_size * 8000 <= 0xffff_ffff_ffff_ffff {
        mdat_size * 8000
    } else {
        0xffff_ffff_ffff_ffff
    }) by (nonlinear_arith)
        requires
            mdat_size >= 0,
            bits == sat(sat(mdat_size * 8) * 1000),
            sat(mdat_size * 8) == if mdat_size * 8 > 0xffff_ffff_ffff_ffff { 0xffff_ffff_ffff_ffff } else { mdat_size * 8 },
            forall|y: int| sat(y) == if y > 0xffff_ffff_ffff_ffff { 0xffff_ffff_ffff_ffff } else { y };
    if f.duration_ms > 0 {
        let dm = f.duration_ms as int;
        let b = bits / dm;
        assert(b * dm <= bits && bits < (b + 1) * dm) by (nonlinear_arith)
            requires dm > 0, b == bits / dm, bits >= 0;
        assert(f.bit_rate == b);
    }
}

/// Reads the facts the verifier checks from the bytes of an MP4 file.
pub fn inspect_mp4(d: &[u8]) -> (r: Result<Mp4Facts, VerifyError>)
    ensures
        verify_outcome(d@, r),
{
    let t = match scan_top_level(d) {
        Err(e) => {
            return Err(VerifyError::Malformed(e));
        },
        Ok(t) => t,
    };
    let (moov_offset, s, e) = t.moov.unwrap();
    let (mdat_offset, mdat_size) = t.mdat.unwrap();
    let info = match parse_moov(&d[s..e]) {
        Err(fault) => {
            return Err(VerifyError::Malformed(fault));
        },
        Ok(info) => info,
    };
    let duration_ms: u64 = if info.movie_timescale == 0 {
        0
    } else {
        let prod = ((info.duration_units as u128) * 1000u128) % 0x1_0000_0000_0000_0000u128;
        (prod / (info.movie_timescale as u128)) as u64
    };
    let bit_rate: u64 = if duration_ms == 0 {
        0
    } else {
        let bits = super::moov::sat_mul(super::moov::sat_mul(mdat_size, 8), 1000);
        bits / duration_ms
    };
    let brand = match t.ftyp_brand {
        None => String::new(),
        Some(b) => string_from_chars(ascii_code(b).as_slice()),
    };
    let codec = string_from_chars(ascii_code(info.codec.unwrap()).as_slice());
    let facts = Mp4Facts {
        file_size: d.len() as u64,
        moov_front: moov_offset < mdat_offset,
        moov_offset,
        mdat_offset,
        ftyp_brand: brand,
        codec,
        width: info.width,
        height: info.height,
        bit_rate,
        color_primaries: opt_string(info.color_primaries, 0),
        transfer: opt_string(info.transfer, 1),
        ycbcr_matrix: opt_string(info.matrix, 2),
        has_b_frames: info.has_b_frames,
        time_scale: info.media_timescale,
        duration_ms,
        sample_count: info.sample_count,
        avg_sample_duration: info.avg_sample_duration,
    };
    Ok(facts)
}


/// One named check of a verified MP4 file.
#[derive(Debug, Clone)]
pub struct Assertion {
    pub name: String,
    pub expected: String,
    pub actual: String,
    pub pass: bool,
}

/// A `String` holding the characters of a string literal.
pub fn lit(s: &str) -> (r: String)
    ensures
        r@ == s@,
{
    String::from_str(s)
}

fn append_chars(s: &mut String, cs: &[char])
    ensures
        final(s)@ == old(s)@ + cs@,
{
    let mut i: usize = 0;
    while i < cs.len()
        invariant
            i <= cs.len(),
            s@ == old(s)@ + cs@.take(i as int),
        decreases cs.len() - i,
    {
        crate::text::push_char(s, cs[i]);
        proof {
            assert(cs@.take(i + 1) =~= cs@.take(i as int).push(cs@[i as int]));
        }
        i = i + 1;
    }
    proof {
        assert(cs@.take(cs.len() as int) =~= cs@);
    }
}

/// `moov` must come before `mdat` (progressive playback).
pub fn assert_moov_front(f: &Mp4Facts) -> (a: Assertion)
    ensures
        a.name@ == "moov_front"@,
        a.expected@ == "moov_offset < mdat_offset"@,
        a.actual@ == "moov@"@ + decimal(f.moov_offset as nat) + " mdat@"@ + decimal(
            f.mdat_offset as nat,
        ),
        a.pass == f.moov_front,
{
    let mut actual = lit("moov@");
    append_chars(&mut actual, decimal_chars(f.moov_offset).as_slice());
    actual.append(" mdat@");
    append_chars(&mut actual, decimal_chars(f.mdat_offset).as_slice());
    Assertion {
        name: lit("moov_front"),
        expected: lit("moov_offset < mdat_offset"),
        actual,
        pass: f.moov_front,
    }
}

/// A colour description passes when its name mentions `709`.
pub fn assert_709(name: &str, value: &String) -> (a: Assertion)
    ensures
        a.name@ == name@,
        a.expected@ == "contains \"709\""@,
        a.actual@ == value@,
        a.pass == seq_contains(value@, seq!['7', '0', '9']),
{
    let chars = crate::text::chars_of(value.as_str());
    let needle = vec!['7', '0', '9'];
    let pass = contains_chars(chars.as_slice(), needle.as_slice());
    proof {
        assert(needle@ =~= seq!['7', '0', '9']);
    }
    Assertion {
        name: lit(name),
        expected: lit("contains \"709\""),
        actual: value.clone(),
        pass,
    }
}

/// The colour primaries are BT.709.
pub fn assert_primaries(f: &Mp4Facts) -> (a: Assertion)
    ensures
        a.name@ == "color_primaries_bt709"@,
        a.expected@ == "contains \"709\""@,
        a.actual@ == f.color_primaries@,
        a.pass == seq_contains(f.color_primaries@, seq!['7', '0', '9']),
{
    assert_709("color_primaries_bt709", &f.color_primaries)
}

/// The transfer characteristics are BT.709.
pub fn assert_transfer(f: &Mp4Facts) -> (a: Assertion)
    ensures
        a.name@ == "transfer_bt709"@,
        a.expected@ == "contains \"709\""@,
        a.actual@ == f.transfer@,
        a.pass == seq_contains(f.transfer@, seq!['7', '0', '9']),
{
    assert_709("transfer_bt709", &f.transfer)
}

/// The codec is H.264 (`avc1`). A four-character code can never contain the
/// five characters `H.264`, so this is the `avc1` test alone.
pub fn assert_codec(f: &Mp4Facts) -> (a: Assertion)
    ensures
        a.name@ == "codec_avc1"@,
        a.expected@ == "avc1 (H.264)"@,
        a.actual@ == f.codec@,
        a.pass == (f.codec@ == seq!['a', 'v', 'c', '1']),
{
    let chars = crate::text::chars_of(f.codec.as_str());
    let pass = chars.len() == 4 && chars[0] == 'a' && chars[1] == 'v' && chars[2] == 'c'
        && chars[3] == '1';
    proof {
        if pass {
            assert(chars@ =~= seq!['a', 'v', 'c', '1']);
        }
    }
    Assertion {
        name: lit("codec_avc1"),
        expected: lit("avc1 (H.264)"),
        actual: f.codec.clone(),
        pass,
    }
}

} // verus!

verus! {

fn num(n: u64) -> (s: String)
    ensures
        s@ == decimal(n as nat),
{
    let d = decimal_chars(n);
    string_from_chars(d.as_slice())
}

/// The text of a fault.
pub open spec fn fault_text(f: Mp4Fault) -> Seq<char> {
    match f {
        Mp4Fault::ChildSize { size, at } => "child atom size "@ + decimal(size as nat) + " exceeds parent at "@
            + decimal(at as nat),
        Mp4Fault::ChildLargesizeTruncated => "child largesize truncated"@,
        Mp4Fault::MvhdTooShort => "mvhd too short"@,
        Mp4Fault::MvhdV1TooShort => "mvhd v1 too short"@,
        Mp4Fault::MvhdV0TooShort => "mvhd v0 too short"@,
        Mp4Fault::MdhdTooShort => "mdhd too short"@,
        Mp4Fault::MdhdTruncated => "mdhd truncated"@,
        Mp4Fault::StsdTooShort => "stsd too short"@,
        Mp4Fault::StsdEntrySize => "stsd entry size"@,
        Mp4Fault::SttsTooShort => "stts too short"@,
        Mp4Fault::SttsEntryTruncated => "stts entry truncated"@,
        Mp4Fault::NoVideoTrak => "no video trak found"@,
        Mp4Fault::TruncatedLargesize(o) => "truncated largesize at "@ + decimal(o as nat),
        Mp4Fault::AtomSizeBelowHeader { size, header, offset } => "atom size "@ + decimal(size as nat)
            + " < header "@ + decimal(header as nat) + " at "@ + decimal(offset as nat),
        Mp4Fault::MoovTooLarge(n) => "moov too large: "@ + decimal(n as nat),
        Mp4Fault::ShortMoovRead { read, wanted } => "short moov read: "@ + decimal(read as nat) + "/"@
            + decimal(wanted as nat),
        Mp4Fault::NonAdvancingAtom(o) => "non-advancing atom at "@ + decimal(o as nat),
        Mp4Fault::NoMoov => "no moov atom"@,
        Mp4Fault::NoMdat => "no mdat atom"@,
        Mp4Fault::EmptyMoov => "empty moov body"@,
    }
}

fn join2(a: &str, x: u64, b: &str, y: u64) -> (s: String)
    ensures
        s@ == a@ + decimal(x as nat) + b@ + decimal(y as nat),
{
    let mut s = lit(a);
    s.append(num(x).as_str());
    s.append(b);
    s.append(num(y).as_str());
    s
}

fn join1(a: &str, x: u64) -> (s: String)
    ensures
        s@ == a@ + decimal(x as nat),
{
    let mut s = lit(a);
    s.append(num(x).as_str());
    s
}

impl Mp4Fault {
    /// What went wrong, in words.
    pub fn text(&self) -> (s: String)
        ensures
            s@ == fault_text(*self),
    {
        match *self {
            Mp4Fault::ChildSize { size, at } => join2("child atom size ", size, " exceeds parent at ", at),
            Mp4Fault::ChildLargesizeTruncated => lit("child largesize truncated"),
            Mp4Fault::MvhdTooShort => lit("mvhd too short"),
            Mp4Fault::MvhdV1TooShort => lit("mvhd v1 too short"),
            Mp4Fault::MvhdV0TooShort => lit("mvhd v0 too short"),
            Mp4Fault::MdhdTooShort => lit("mdhd too short"),
            Mp4Fault::MdhdTruncated => lit("mdhd truncated"),
            Mp4Fault::StsdTooShort => lit("stsd too short"),
            Mp4Fault::StsdEntrySize => lit("stsd entry size"),
            Mp4Fault::SttsTooShort => lit("stts too short"),
            Mp4Fault::SttsEntryTruncated => lit("stts entry truncated"),
            Mp4Fault::NoVideoTrak => lit("no video trak found"),
            Mp4Fault::TruncatedLargesize(o) => join1("truncated largesize at ", o),
            Mp4Fault::AtomSizeBelowHeader { size, header, offset } => {
                let mut s = join2("atom size ", size, " < header ", header);
                s.append(" at ");
                s.append(num(offset).as_str());
                s
            },
            Mp4Fault::MoovTooLarge(n) => join1("moov too large: ", n),
            Mp4Fault::ShortMoovRead { read, wanted } => join2("short moov read: ", read, "/", wanted),
            Mp4Fault::NonAdvancingAtom(o) => join1("non-advancing atom at ", o),
            Mp4Fault::NoMoov => lit("no moov atom"),
            Mp4Fault::NoMdat => lit("no mdat atom"),
            Mp4Fault::EmptyMoov => lit("empty moov body"),
        }
    }
}

/// The text of a verification error.
pub open spec fn verify_error_text(e: VerifyError) -> Seq<char> {
    match e {
        VerifyError::Io(m) => "io: "@ + m@,
        VerifyError::Malformed(f) => "malformed mp4: "@ + fault_text(f),
        VerifyError::UnsupportedCodec(m) => "unsupported codec: "@ + m@,
    }
}

impl VerifyError {
    /// The error's message.
    pub fn message(&self) -> (s: String)
        ensures
            s@ == verify_error_text(*self),
    {
        let (prefix, rest) = match self {
            VerifyError::Io(m) => ("io: ", m.clone()),
            VerifyError::Malformed(f) => ("malformed mp4: ", f.text()),
            VerifyError::UnsupportedCodec(m) => ("unsupported codec: ", m.clone()),
        };
        let mut s = lit(prefix);
        s.append(rest.as_str());
        s
    }
}

} // verus!
