//! Export presets: output resolutions, codecs and the CLI export profiles.

use vstd::prelude::*;
use crate::text::{
    ascii_lower, chars_eq, chars_of, decimal, framed, framed_number, normalized_key, trim, trim_end_at,
    trim_start_at,
};
use crate::errors::RecordError;
use crate::render_source::Field;
use crate::mp4::verdict::lit;

verus! {

/// Encoder codec presets.
#[derive(Debug, Clone, Copy, PartialEq, Eq, Structural)]
pub enum VideoCodec {
    H264,
    HevcMain8,
}

/// Colour pipelines of the encoder.
#[derive(Debug, Clone, Copy, PartialEq, Eq, Structural)]
#[allow(non_camel_case_types)]
pub enum ColorSpec {
    BT709_SDR_8bit,
    BT2020_HDR10_10bit,
}

/// Output resolutions of a source export.
#[derive(Debug, Clone, Copy, PartialEq, Eq, Structural)]
pub enum ExportResolution {
    P720,
    P1080,
    K4,
}

pub open spec fn res_name(r: ExportResolution) -> Seq<char> {
    match r {
        ExportResolution::P720 => seq!['7', '2', '0', 'p'],
        ExportResolution::P1080 => seq!['1', '0', '8', '0', 'p'],
        ExportResolution::K4 => seq!['4', 'k'],
    }
}

/// The resolution named by `s`, ignoring surrounding whitespace and ASCII case.
pub open spec fn spec_parse_resolution(s: Seq<char>) -> Option<ExportResolution> {
    let key = ascii_lower(trim(s));
    if key == res_name(ExportResolution::P720) {
        Some(ExportResolution::P720)
    } else if key == res_name(ExportResolution::P1080) {
        Some(ExportResolution::P1080)
    } else if key == res_name(ExportResolution::K4) {
        Some(ExportResolution::K4)
    } else {
        None
    }
}

pub open spec fn res_viewport(r: ExportResolution) -> (u32, u32) {
    match r {
        ExportResolution::P720 => (1280, 720),
        ExportResolution::P1080 => (1920, 1080),
        ExportResolution::K4 => (3840, 2160),
    }
}

pub open spec fn res_bitrate(r: ExportResolution) -> u32 {
    match r {
        ExportResolution::P720 => 8_000_000,
        ExportResolution::P1080 => 20_000_000,
        ExportResolution::K4 => 80_000_000,
    }
}

pub open spec fn res_codec(r: ExportResolution) -> VideoCodec {
    match r {
        ExportResolution::K4 => VideoCodec::HevcMain8,
        _ => VideoCodec::H264,
    }
}

impl ExportResolution {
    /// Parses `720p`, `1080p` or `4k` (trimmed, ASCII case-insensitive).
    pub fn parse_str(s: &str) -> (r: Option<Self>)
        ensures
            r == spec_parse_resolution(s@),
    {
        let key = normalized_key(s);
        let p720 = vec!['7', '2', '0', 'p'];
        let p1080 = vec!['1', '0', '8', '0', 'p'];
        let k4 = vec!['4', 'k'];
        proof {
            assert(p720@ =~= res_name(ExportResolution::P720));
            assert(p1080@ =~= res_name(ExportResolution::P1080));
            assert(k4@ =~= res_name(ExportResolution::K4));
        }
        if chars_eq(key.as_slice(), p720.as_slice()) {
            Some(ExportResolution::P720)
        } else if chars_eq(key.as_slice(), p1080.as_slice()) {
            Some(ExportResolution::P1080)
        } else if chars_eq(key.as_slice(), k4.as_slice()) {
            Some(ExportResolution::K4)
        } else {
            None
        }
    }

    /// The resolution's name: `720p`, `1080p` or `4k`.
    pub fn as_str(self) -> (s: &'static str)
        ensures
            s@ == res_name(self),
    {
        match self {
            ExportResolution::P720 => {
                proof {
                    reveal_strlit("720p");
                }
                "720p"
            },
            ExportResolution::P1080 => {
                proof {
                    reveal_strlit("1080p");
                }
                "1080p"
            },
            ExportResolution::K4 => {
                proof {
                    reveal_strlit("4k");
                }
                "4k"
            },
        }
    }

    /// Output size in pixels.
    pub fn viewport(self) -> (v: (u32, u32))
        ensures
            v == res_viewport(self),
    {
        match self {
            ExportResolution::P720 => (1280, 720),
            ExportResolution::P1080 => (1920, 1080),
            ExportResolution::K4 => (3840, 2160),
        }
    }

    /// Target bitrate in bits per second.
    pub fn bitrate_bps(self) -> (b: u32)
        ensures
            b == res_bitrate(self),
    {
        match self {
            ExportResolution::P720 => 8_000_000,
            ExportResolution::P1080 => 20_000_000,
            ExportResolution::K4 => 80_000_000,
        }
    }

    /// Encoder codec: H.264 up to 1080p, HEVC Main 8-bit for 4k.
    pub fn codec(self) -> (c: VideoCodec)
        ensures
            c == res_codec(self),
    {
        match self {
            ExportResolution::P720 => VideoCodec::H264,
            ExportResolution::P1080 => VideoCodec::H264,
            ExportResolution::K4 => VideoCodec::HevcMain8,
        }
    }
}


/// A named export preset: resolution, frame rate and parallel segments.
#[derive(Debug, Clone, Copy)]
pub struct SourceExportProfile {
    pub name: &'static str,
    pub resolution: ExportResolution,
    pub fps: u32,
    pub parallel: usize,
}

/// Why an export profile request was refused.
#[derive(Debug, Clone)]
pub enum ProfileError {
    /// The profile name (trimmed, lower-cased) is not a known profile.
    UnknownProfile(String),
    /// The resolution override (as given) is not a known resolution.
    BadResolution(String),
    /// The frame-rate override is neither 30 nor 60.
    BadFps(u32),
    /// The parallel override is outside `1..=4`.
    BadParallel(usize),
    /// 4k export at a frame rate other than 30.
    K4Fps(u32),
    /// 4k export with more than two parallel segments.
    K4Parallel(usize),
}

/// The preset named by the normalized key `key`: name, resolution, fps, parallel.
pub open spec fn base_profile(key: Seq<char>) -> Option<(Seq<char>, ExportResolution, u32, usize)> {
    if key == seq!['d', 'r', 'a', 'f', 't'] {
        Some((key, ExportResolution::P720, 30, 1))
    } else if key == seq!['s', 't', 'a', 'n', 'd', 'a', 'r', 'd'] {
        Some((key, ExportResolution::P1080, 30, 1))
    } else if key == seq!['f', 'i', 'n', 'a', 'l'] {
        Some((key, ExportResolution::P1080, 60, 1))
    } else if key == seq!['f', 'i', 'n', 'a', 'l', '-', 'f', 'a', 's', 't'] || key == seq![
        'f',
        'a',
        's',
        't',
        '-',
        'f',
        'i',
        'n',
        'a',
        'l',
    ] {
        Some((seq!['f', 'i', 'n', 'a', 'l', '-', 'f', 'a', 's', 't'], ExportResolution::P1080, 60, 2))
    } else {
        None
    }
}

/// The outcome `r` of a profile request: the preset, or the first check it
/// fails, in the order the CLI checks them (profile, resolution, fps,
/// parallel, then the 4k limits).
pub open spec fn profile_outcome(
    profile: Seq<char>,
    resolution: Option<Seq<char>>,
    fps: Option<u32>,
    parallel: Option<usize>,
    r: Result<SourceExportProfile, ProfileError>,
) -> bool {
    let key = ascii_lower(trim(profile));
    match base_profile(key) {
        None => r matches Err(ProfileError::UnknownProfile(k)) && k@ == key,
        Some((name, res0, fps0, par0)) => {
            let res = match resolution {
                None => Some(res0),
                Some(raw) => spec_parse_resolution(raw),
            };
            if res is None {
                r matches Err(ProfileError::BadResolution(raw)) && raw@ == resolution.unwrap()
            } else if fps matches Some(v) && v != 30 && v != 60 {
                r matches Err(ProfileError::BadFps(v2)) && v2 == fps.unwrap()
            } else if parallel matches Some(v) && (v == 0 || v > 4) {
                r matches Err(ProfileError::BadParallel(v2)) && v2 == parallel.unwrap()
            } else {
                let f = match fps {
                    Some(v) => v,
                    None => fps0,
                };
                let p = match parallel {
                    Some(v) => v,
                    None => par0,
                };
                if res.unwrap() == ExportResolution::K4 && f != 30 {
                    r matches Err(ProfileError::K4Fps(v2)) && v2 == f
                } else if res.unwrap() == ExportResolution::K4 && p > 2 {
                    r matches Err(ProfileError::K4Parallel(v2)) && v2 == p
                } else {
                    r matches Ok(prof) && prof.name@ == name && prof.resolution == res.unwrap()
                        && prof.fps == f && prof.parallel == p
                }
            }
        },
    }
}

/// The preset table, as data: with no overrides, a profile whose name
/// (trimmed, lower-cased) is `draft` is 720p at 30 fps in one segment,
/// `standard` is 1080p at 30 fps in one segment, `final` is 1080p at 60 fps
/// in one segment, and `final-fast` (or `fast-final`) is 1080p at 60 fps in
/// two segments, named `final-fast`; any other name is refused as unknown.
pub proof fn lemma_profile_table(profile: Seq<char>, r: Result<SourceExportProfile, ProfileError>)
    requires
        profile_outcome(profile, None, None, None, r),
    ensures
        ({
            let key = ascii_lower(trim(profile));
            &&& key == "draft"@ ==> (r matches Ok(p) && p.name@ == "draft"@ && p.resolution == ExportResolution::P720
                && p.fps == 30 && p.parallel == 1)
            &&& key == "standard"@ ==> (r matches Ok(p) && p.name@ == "standard"@ && p.resolution
                == ExportResolution::P1080 && p.fps == 30 && p.parallel == 1)
            &&& key == "final"@ ==> (r matches Ok(p) && p.name@ == "final"@ && p.resolution == ExportResolution::P1080
                && p.fps == 60 && p.parallel == 1)
            &&& (key == "final-fast"@ || key == "fast-final"@) ==> (r matches Ok(p) && p.name@ == "final-fast"@
                && p.resolution == ExportResolution::P1080 && p.fps == 60 && p.parallel == 2)
            &&& !(key == "draft"@ || key == "standard"@ || key == "final"@ || key == "final-fast"@ || key
                == "fast-final"@) ==> (r matches Err(ProfileError::UnknownProfile(k)) && k@ == key)
        }),
{
    reveal_strlit("draft");
    reveal_strlit("standard");
    reveal_strlit("final");
    reveal_strlit("final-fast");
    reveal_strlit("fast-final");
    assert("draft"@ =~= seq!['d', 'r', 'a', 'f', 't']);
    assert("standard"@ =~= seq!['s', 't', 'a', 'n', 'd', 'a', 'r', 'd']);
    assert("final"@ =~= seq!['f', 'i', 'n', 'a', 'l']);
    assert("final-fast"@ =~= seq!['f', 'i', 'n', 'a', 'l', '-', 'f', 'a', 's', 't']);
    assert("fast-final"@ =~= seq!['f', 'a', 's', 't', '-', 'f', 'i', 'n', 'a', 'l']);
}

fn key_is(key: &Vec<char>, lit: &[char]) -> (r: bool)
    ensures
        r == (key@ == lit@),
{
    chars_eq(key.as_slice(), lit)
}

/// The 4k limits of an export preset: 30 fps, at most two segments.
pub fn validate_source_export_combo(preset: SourceExportProfile) -> (r: Result<(), ProfileError>)
    ensures
        preset.resolution == ExportResolution::K4 && preset.fps != 30 ==> (r matches Err(
            ProfileError::K4Fps(v),
        ) && v == preset.fps),
        !(preset.resolution == ExportResolution::K4 && preset.fps != 30) && preset.resolution
            == ExportResolution::K4 && preset.parallel > 2 ==> (r matches Err(
            ProfileError::K4Parallel(v),
        ) && v == preset.parallel),
        !(preset.resolution == ExportResolution::K4 && (preset.fps != 30 || preset.parallel
            > 2)) ==> r is Ok,
{
    if preset.resolution == ExportResolution::K4 && preset.fps != 30 {
        return Err(ProfileError::K4Fps(preset.fps));
    }
    if preset.resolution == ExportResolution::K4 && preset.parallel > 2 {
        return Err(ProfileError::K4Parallel(preset.parallel));
    }
    Ok(())
}

/// Resolves a CLI export profile with its optional overrides.
pub fn source_export_profile(
    profile: &str,
    resolution: Option<&str>,
    fps: Option<u32>,
    parallel: Option<usize>,
) -> (r: Result<SourceExportProfile, ProfileError>)
    ensures
        profile_outcome(
            profile@,
            match resolution {
                Some(s) => Some(s@),
                None => None,
            },
            fps,
            parallel,
            r,
        ),
{
    let key = normalized_key(profile);
    let draft = ['d', 'r', 'a', 'f', 't'];
    let standard = ['s', 't', 'a', 'n', 'd', 'a', 'r', 'd'];
    let fin = ['f', 'i', 'n', 'a', 'l'];
    let final_fast = ['f', 'i', 'n', 'a', 'l', '-', 'f', 'a', 's', 't'];
    let fast_final = ['f', 'a', 's', 't', '-', 'f', 'i', 'n', 'a', 'l'];
    proof {
        assert(draft@ =~= seq!['d', 'r', 'a', 'f', 't']);
        assert(standard@ =~= seq!['s', 't', 'a', 'n', 'd', 'a', 'r', 'd']);
        assert(fin@ =~= seq!['f', 'i', 'n', 'a', 'l']);
        assert(final_fast@ =~= seq!['f', 'i', 'n', 'a', 'l', '-', 'f', 'a', 's', 't']);
        assert(fast_final@ =~= seq!['f', 'a', 's', 't', '-', 'f', 'i', 'n', 'a', 'l']);
    }
    let mut preset = if key_is(&key, &draft) {
        proof {
            reveal_strlit("draft");
            assert("draft"@ =~= seq!['d', 'r', 'a', 'f', 't']);
        }
        SourceExportProfile { name: "draft", resolution: ExportResolution::P720, fps: 30, parallel: 1 }
    } else if key_is(&key, &standard) {
        proof {
            reveal_strlit("standard");
            assert("standard"@ =~= seq!['s', 't', 'a', 'n', 'd', 'a', 'r', 'd']);
        }
        SourceExportProfile {
            name: "standard",
            resolution: ExportResolution::P1080,
            fps: 30,
            parallel: 1,
        }
    } else if key_is(&key, &fin) {
        proof {
            reveal_strlit("final");
            assert("final"@ =~= seq!['f', 'i', 'n', 'a', 'l']);
        }
        SourceExportProfile { name: "final", resolution: ExportResolution::P1080, fps: 60, parallel: 1 }
    } else if key_is(&key, &final_fast) || key_is(&key, &fast_final) {
        proof {
            reveal_strlit("final-fast");
            assert("final-fast"@ =~= seq!['f', 'i', 'n', 'a', 'l', '-', 'f', 'a', 's', 't']);
        }
        SourceExportProfile {
            name: "final-fast",
            resolution: ExportResolution::P1080,
            fps: 60,
            parallel: 2,
        }
    } else {
        return Err(ProfileError::UnknownProfile(crate::text::string_from_chars(key.as_slice())));
    };
    if let Some(raw) = resolution {
        match ExportResolution::parse_str(raw) {
            None => {
                return Err(ProfileError::BadResolution(lit(raw)));
            },
            Some(r) => {
                preset.resolution = r;
            },
        }
    }
    if let Some(value) = fps {
        if value != 30 && value != 60 {
            return Err(ProfileError::BadFps(value));
        }
        preset.fps = value;
    }
    if let Some(value) = parallel {
        if value == 0 || value > 4 {
            return Err(ProfileError::BadParallel(value));
        }
        preset.parallel = value;
    }
    match validate_source_export_combo(preset) {
        Err(e) => Err(e),
        Ok(()) => Ok(preset),
    }
}


impl ProfileError {
    /// The message the CLI prints for this error.
    pub fn message(&self) -> (m: String)
        ensures
            match self {
                ProfileError::UnknownProfile(k) => m@
                    == "--profile must be draft, standard, final or final-fast (got '"@ + k@
                    + "')"@,
                ProfileError::BadResolution(raw) => m@
                    == "--resolution must be 720p, 1080p or 4k (got '"@ + raw@ + "')"@,
                ProfileError::BadFps(v) => m@ == "--fps must be 30 or 60 (got "@ + decimal(
                    *v as nat,
                ) + ")"@,
                ProfileError::BadParallel(v) => m@ == "--parallel must be between 1 and 4 (got "@
                    + decimal(*v as nat) + ")"@,
                ProfileError::K4Fps(v) => m@ == "4k export supports 30fps only (got "@ + decimal(
                    *v as nat,
                ) + "fps)"@,
                ProfileError::K4Parallel(v) => m@ == "4k export supports parallel 1 or 2 only (got x"@
                    + decimal(*v as nat) + ")"@,
            },
    {
        match self {
            ProfileError::UnknownProfile(k) => {
                let cs = chars_of(k.as_str());
                framed(
                    "--profile must be draft, standard, final or final-fast (got '",
                    cs.as_slice(),
                    "')",
                )
            },
            ProfileError::BadResolution(raw) => {
                let cs = chars_of(raw.as_str());
                framed("--resolution must be 720p, 1080p or 4k (got '", cs.as_slice(), "')")
            },
            ProfileError::BadFps(v) => framed_number("--fps must be 30 or 60 (got ", *v as u64, ")"),
            ProfileError::BadParallel(v) => framed_number(
                "--parallel must be between 1 and 4 (got ",
                *v as u64,
                ")",
            ),
            ProfileError::K4Fps(v) => framed_number(
                "4k export supports 30fps only (got ",
                *v as u64,
                "fps)",
            ),
            ProfileError::K4Parallel(v) => framed_number(
                "4k export supports parallel 1 or 2 only (got x",
                *v as u64,
                ")",
            ),
        }
    }
}

} // verus!
verus! {

/// The name of each resolution parses back to that resolution.
pub proof fn lemma_resolution_name_round_trip(r: ExportResolution)
    ensures
        spec_parse_resolution(res_name(r)) == Some(r),
{
    let s = res_name(r);
    assert(trim_start_at(s, 0) == 0);
    assert(trim_end_at(s, 0, s.len() as int) == s.len());
    assert(trim(s) =~= s);
    assert(ascii_lower(s) =~= s);
}

/// Viewport, bitrate and codec an export runs with.
#[derive(Debug, Clone, Copy)]
pub struct ResolvedExportPreset {
    pub viewport: (u32, u32),
    pub bitrate_bps: u32,
    pub codec: VideoCodec,
}

/// The resolution an export uses: the CLI override, else the string at
/// `meta.export.resolution`, else the one matching the requested viewport.
pub open spec fn preset_resolution(
    meta: Field<String>,
    resolution_override: Option<ExportResolution>,
    viewport: (u32, u32),
) -> Result<ExportResolution, Seq<char>> {
    match resolution_override {
        Some(r) => Ok(r),
        None => match meta {
            Field::Val(raw) => match spec_parse_resolution(raw@) {
                Some(r) => Ok(r),
                None => Err(
                    "meta.export.resolution must be '720p', '1080p' or '4k' (got '"@ + raw@ + "')"@,
                ),
            },
            _ => Ok(
                if viewport == (3840u32, 2160u32) {
                    ExportResolution::K4
                } else if viewport == (1280u32, 720u32) {
                    ExportResolution::P720
                } else {
                    ExportResolution::P1080
                },
            ),
        },
    }
}

/// Whether the resolution fixes viewport and bitrate: an override was given,
/// or `meta.export.resolution` is present (whatever its JSON type).
pub open spec fn resolution_pinned(meta: Field<String>, resolution_override: Option<ExportResolution>) -> bool {
    resolution_override is Some || !(meta is Absent)
}

/// Resolves the export preset of a source. `meta_resolution` is the value at
/// `meta.export.resolution`; `viewport` and `bitrate_bps` are the caller's
/// requested values.
pub fn resolve_export_preset(
    meta_resolution: &Field<String>,
    resolution_override: Option<ExportResolution>,
    viewport: (u32, u32),
    bitrate_bps: u32,
) -> (r: Result<ResolvedExportPreset, RecordError>)
    ensures
        match preset_resolution(*meta_resolution, resolution_override, viewport) {
            Err(msg) => r matches Err(RecordError::BundleLoadFailed(m)) && m@ == msg,
            Ok(res) => r matches Ok(p) && {
                let pinned = resolution_pinned(*meta_resolution, resolution_override);
                let vp = if pinned {
                    res_viewport(res)
                } else {
                    viewport
                };
                &&& p.viewport == vp
                &&& p.bitrate_bps == if pinned {
                    res_bitrate(res)
                } else {
                    bitrate_bps
                }
                &&& p.codec == if vp == (3840u32, 2160u32) {
                    VideoCodec::HevcMain8
                } else {
                    res_codec(res)
                }
            },
        },
{
    let resolution = match resolution_override {
        Some(r) => r,
        None => match meta_resolution {
            Field::Val(raw) => match ExportResolution::parse_str(raw.as_str()) {
                Some(r) => r,
                None => {
                    let raw_chars = chars_of(raw.as_str());
                    return Err(
                        RecordError::BundleLoadFailed(
                            framed(
                                "meta.export.resolution must be '720p', '1080p' or '4k' (got '",
                                raw_chars.as_slice(),
                                "')",
                            ),
                        ),
                    );
                },
            },
            _ => if viewport.0 == 3840 && viewport.1 == 2160 {
                ExportResolution::K4
            } else if viewport.0 == 1280 && viewport.1 == 720 {
                ExportResolution::P720
            } else {
                ExportResolution::P1080
            },
        },
    };
    let pinned = resolution_override.is_some() || !matches!(meta_resolution, Field::Absent);
    let vp = if pinned {
        resolution.viewport()
    } else {
        viewport
    };
    let bitrate = if pinned {
        resolution.bitrate_bps()
    } else {
        bitrate_bps
    };
    let codec = if vp.0 == 3840 && vp.1 == 2160 {
        VideoCodec::HevcMain8
    } else {
        resolution.codec()
    };
    Ok(ResolvedExportPreset { viewport: vp, bitrate_bps: bitrate, codec })
}

} // verus!
