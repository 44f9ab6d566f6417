//! Audio clips of a render source: where their sound comes from (data URL,
//! `file://` URL or path) and how a data URL is decoded.

use vstd::prelude::*;
use vstd::utf8::{decode_utf8, encode_utf8, valid_utf8};
use base64::Engine;
use crate::mp4::verdict::lit;
use crate::render_source::{eq_lit, starts_with, starts_with_chars, Field, RenderSource, TrackFields};
use crate::text::{chars_of, decimal, decimal_chars, string_from_chars};
use crate::project::json::{
    json_array_items, json_array_items_of, json_string_at, json_string_field, json_u64_at, json_u64_field, json_value_at,
    json_value_field,
};
use crate::project::proposal::same_text;
use crate::project::queue::u64_or_zero;

verus! {

// ───────────────────────── trusted calls ─────────────────────────

/// The text of std's UTF-8 error for `bytes`, which are not valid UTF-8.
pub uninterp spec fn utf8_error_text(bytes: Seq<u8>) -> Seq<char>;

/// std's `String::from_utf8`: the decoded string when `bytes` are valid
/// UTF-8; otherwise the error, as its `Display` text.
#[verifier::external_body]
fn string_from_utf8(bytes: Vec<u8>) -> (r: Result<String, String>)
    ensures
        r is Ok <==> valid_utf8(bytes@),
        r matches Ok(s) ==> s@ == decode_utf8(bytes@),
        r matches Err(e) ==> e@ == utf8_error_text(bytes@),
{
    match String::from_utf8(bytes) {
        Ok(s) => Ok(s),
        Err(err) => Err(err.to_string()),
    }
}

/// What base64's `general_purpose::STANDARD.decode` gives for `input`: the
/// decoded bytes, or the `Display` text of its `DecodeError`.
pub uninterp spec fn base64_standard_decode(input: Seq<u8>) -> Result<Seq<u8>, Seq<char>>;

pub open spec fn bytes_outcome(r: Result<Vec<u8>, String>) -> Result<Seq<u8>, Seq<char>> {
    match r {
        Ok(v) => Ok(v@),
        Err(e) => Err(e@),
    }
}

/// base64's `Engine::decode` with the standard alphabet and canonical
/// padding; a decode error is handed on as its `Display` text.
#[verifier::external_body]
fn base64_decode(input: &[u8]) -> (r: Result<Vec<u8>, String>)
    ensures
        bytes_outcome(r) == base64_standard_decode(input@),
{
    match base64::engine::general_purpose::STANDARD.decode(input) {
        Ok(v) => Ok(v),
        Err(err) => Err(err.to_string()),
    }
}

// ───────────────────────── data URLs ─────────────────────────

/// Index of the first occurrence of `needle` in `hay` at or after `from`.
pub open spec fn byte_find_from(hay: Seq<u8>, needle: Seq<u8>, from: int) -> Option<int>
    decreases hay.len() - from,
{
    if from < 0 || from + needle.len() > hay.len() {
        None
    } else if needle.len() == 0 || hay.subrange(from, from + needle.len()) == needle {
        Some(from)
    } else {
        byte_find_from(hay, needle, from + 1)
    }
}

/// The bytes of `;base64,`.
pub open spec fn base64_marker() -> Seq<u8> {
    seq![59u8, 98u8, 97u8, 115u8, 101u8, 54u8, 52u8, 44u8]
}

/// What follows the first `;base64,` of a data URL.
pub open spec fn data_payload(src: Seq<u8>) -> Option<Seq<u8>> {
    match byte_find_from(src, base64_marker(), 0) {
        Some(k) => Some(src.subrange(k + 8, src.len() as int)),
        None => None,
    }
}

fn find_marker(hay: &[u8]) -> (r: Option<usize>)
    ensures
        r is None ==> byte_find_from(hay@, base64_marker(), 0) is None,
        r matches Some(k) ==> byte_find_from(hay@, base64_marker(), 0) == Some(k as int) && k + 8
            <= hay@.len(),
{
    let marker: [u8; 8] = [59u8, 98u8, 97u8, 115u8, 101u8, 54u8, 52u8, 44u8];
    proof {
        assert(marker@ =~= base64_marker());
    }
    let n = hay.len();
    if n < 8 {
        return None;
    }
    let mut i: usize = 0;
    while i <= n - 8
        invariant
            8 <= n,
            n == hay@.len(),
            i <= n - 7,
            marker@ == base64_marker(),
            byte_find_from(hay@, base64_marker(), 0) == byte_find_from(hay@, base64_marker(), i as int),
        decreases n - 7 - i,
    {
        let mut k: usize = 0;
        let mut same = true;
        while k < 8
            invariant
                k <= 8,
                i + 8 <= n,
                n == hay@.len(),
                marker@ == base64_marker(),
                same == (forall|t: int| 0 <= t < k ==> hay@[i + t] == marker@[t]),
            decreases 8 - k,
        {
            if hay[i + k] != marker[k] {
                same = false;
            }
            k = k + 1;
        }
        if same {
            assert(hay@.subrange(i as int, i + 8) =~= base64_marker());
            return Some(i);
        }
        proof {
            let t = choose|t: int| 0 <= t < 8 && hay@[i + t] != marker@[t];
            assert(hay@.subrange(i as int, i + 8)[t] != base64_marker()[t]);
        }
        i = i + 1;
    }
    None
}

/// Adds the data-URL context to the outcome of decoding its payload.
pub fn data_audio_bytes(decoded: Result<Vec<u8>, String>) -> (r: Result<Vec<u8>, String>)
    ensures
        match decoded {
            Ok(v) => r matches Ok(w) && w@ == v@,
            Err(e) => r matches Err(m) && m@ == "decode data audio src: "@ + e@,
        },
{
    match decoded {
        Ok(v) => Ok(v),
        Err(e) => {
            let mut m = lit("decode data audio src: ");
            m.append(e.as_str());
            Err(m)
        },
    }
}

/// Decodes the base64 payload of a `data:audio/...;base64,` URL.
pub fn decode_data_audio(src: &str) -> (r: Result<Vec<u8>, String>)
    ensures
        match data_payload(encode_utf8(src@)) {
            None => r matches Err(m) && m@ == "data audio src must contain ;base64,"@,
            Some(p) => match base64_standard_decode(p) {
                Ok(v) => r matches Ok(w) && w@ == v,
                Err(e) => r matches Err(m) && m@ == "decode data audio src: "@ + e,
            },
        },
{
    let bytes = src.as_bytes();
    let k = match find_marker(bytes) {
        Some(k) => k,
        None => {
            return Err(lit("data audio src must contain ;base64,"));
        },
    };
    let n: usize = bytes.len();
    let payload = &bytes[k + 8..n];
    assert(bytes@ == encode_utf8(src@));
    assert(payload@ == bytes@.subrange(k + 8, n as int));
    let decoded = base64_decode(payload);
    data_audio_bytes(decoded)
}

/// File extension for a data URL's audio type.
pub open spec fn spec_audio_extension(src: Seq<char>) -> Seq<char> {
    if starts_with(src, "data:audio/wav"@) || starts_with(src, "data:audio/wave"@) {
        "wav"@
    } else if starts_with(src, "data:audio/mp4"@) || starts_with(src, "data:audio/aac"@) {
        "m4a"@
    } else {
        "mp3"@
    }
}

/// `wav`, `m4a` or `mp3`, from the media type of a data URL.
pub fn data_audio_extension(src: &str) -> (e: &'static str)
    ensures
        e@ == spec_audio_extension(src@),
{
    let cs = chars_of(src);
    let s = cs.as_slice();
    if starts_with_chars(s, "data:audio/wav") || starts_with_chars(s, "data:audio/wave") {
        "wav"
    } else if starts_with_chars(s, "data:audio/mp4") || starts_with_chars(s, "data:audio/aac") {
        "m4a"
    } else {
        "mp3"
    }
}

/// Name of the temporary file a decoded data URL is written to:
/// `<stem>.audio-<index>.<extension>`, with the stem `capy-timeline-export`
/// when the video path has none.
pub fn temp_audio_file_name(stem: Option<&str>, index: usize, extension: &str) -> (s: String)
    ensures
        s@ == match stem {
            Some(st) => st@,
            None => "capy-timeline-export"@,
        } + ".audio-"@ + decimal(index as nat) + "."@ + extension@,
{
    let mut s = match stem {
        Some(st) => lit(st),
        None => lit("capy-timeline-export"),
    };
    s.append(".audio-");
    let d = decimal_chars(index as u64);
    let ds = string_from_chars(d.as_slice());
    s.append(ds.as_str());
    s.append(".");
    s.append(extension);
    s
}

// ───────────────────────── percent decoding ─────────────────────────

/// Value of an ASCII hex digit.
pub open spec fn hex_digit_value(b: u8) -> Option<u8> {
    if 48 <= b <= 57 {
        Some((b - 48) as u8)
    } else if 97 <= b <= 102 {
        Some((b - 97 + 10) as u8)
    } else if 65 <= b <= 70 {
        Some((b - 65 + 10) as u8)
    } else {
        None
    }
}

/// The value of one hex digit of a percent escape.
pub fn hex_value(byte: u8) -> (r: Result<u8, String>)
    ensures
        match hex_digit_value(byte) {
            Some(v) => r matches Ok(x) && x == v,
            None => r matches Err(m) && m@ == "invalid percent encoding"@,
        },
{
    if 48 <= byte && byte <= 57 {
        Ok(byte - 48)
    } else if 97 <= byte && byte <= 102 {
        Ok(byte - 97 + 10)
    } else if 65 <= byte && byte <= 70 {
        Ok(byte - 65 + 10)
    } else {
        Err(lit("invalid percent encoding"))
    }
}

/// Percent-decoding of `b` from index `i`: each `%` followed by two more
/// bytes is an escape of two hex digits; every other byte stands for itself.
/// `None` when an escape has a byte that is not a hex digit.
pub open spec fn pct_from(b: Seq<u8>, i: int) -> Option<Seq<u8>>
    decreases b.len() - i,
{
    if i < 0 || i >= b.len() {
        Some(seq![])
    } else if b[i] == 37 && i + 2 < b.len() {
        match (hex_digit_value(b[i + 1]), hex_digit_value(b[i + 2])) {
            (Some(hi), Some(lo)) => match pct_from(b, i + 3) {
                Some(r) => Some(seq![(hi * 16 + lo) as u8] + r),
                None => None,
            },
            _ => None,
        }
    } else {
        match pct_from(b, i + 1) {
            Some(r) => Some(seq![b[i]] + r),
            None => None,
        }
    }
}

pub open spec fn prepend(p: Seq<u8>, o: Option<Seq<u8>>) -> Option<Seq<u8>> {
    match o {
        Some(r) => Some(p + r),
        None => None,
    }
}

/// Percent-decodes bytes.
pub fn percent_decode_bytes(value: &[u8]) -> (r: Result<Vec<u8>, String>)
    ensures
        match pct_from(value@, 0) {
            Some(v) => r matches Ok(o) && o@ == v,
            None => r matches Err(m) && m@ == "invalid percent encoding"@,
        },
{
    let n = value.len();
    let mut out: Vec<u8> = Vec::new();
    let mut i: usize = 0;
    proof {
        assert(out@ + seq![] =~= out@);
        match pct_from(value@, 0) {
            Some(r) => {
                assert(out@ + r =~= r);
            },
            None => {},
        }
    }
    while i < n
        invariant
            n == value@.len(),
            i <= n,
            pct_from(value@, 0) == prepend(out@, pct_from(value@, i as int)),
        decreases n - i,
    {
        let byte = value[i];
        if byte == 37 && n - i > 2 {
            let hi = match hex_value(value[i + 1]) {
                Ok(v) => v,
                Err(e) => {
                    return Err(e);
                },
            };
            let lo = match hex_value(value[i + 2]) {
                Ok(v) => v,
                Err(e) => {
                    return Err(e);
                },
            };
            let x: u8 = (hi << 4) | lo;
            assert(x == hi * 16 + lo) by (bit_vector)
                requires
                    x == (hi << 4) | lo,
                    hi < 16,
                    lo < 16,
            ;
            proof {
                match pct_from(value@, i + 3) {
                    Some(r) => {
                        assert(out@ + (seq![x] + r) =~= out@.push(x) + r);
                    },
                    None => {},
                }
            }
            out.push(x);
            i = i + 3;
        } else {
            proof {
                match pct_from(value@, i + 1) {
                    Some(r) => {
                        assert(out@ + (seq![byte] + r) =~= out@.push(byte) + r);
                    },
                    None => {},
                }
            }
            out.push(byte);
            i = i + 1;
        }
    }
    proof {
        assert(out@ + seq![] =~= out@);
    }
    Ok(out)
}

/// Percent-decoding of the UTF-8 bytes `b` into a string: the escape error,
/// or the decoded text, or std's UTF-8 error text.
pub open spec fn spec_percent_decode(b: Seq<u8>) -> Result<Seq<char>, Seq<char>> {
    match pct_from(b, 0) {
        None => Err("invalid percent encoding"@),
        Some(v) => if valid_utf8(v) {
            Ok(decode_utf8(v))
        } else {
            Err(utf8_error_text(v))
        },
    }
}

pub open spec fn text_outcome(r: Result<String, String>) -> Result<Seq<char>, Seq<char>> {
    match r {
        Ok(s) => Ok(s@),
        Err(e) => Err(e@),
    }
}

/// Percent-decodes a URL path into a string.
pub fn percent_decode(value: &str) -> (r: Result<String, String>)
    ensures
        text_outcome(r) == spec_percent_decode(encode_utf8(value@)),
{
    let bytes = value.as_bytes();
    match percent_decode_bytes(bytes) {
        Err(e) => Err(e),
        Ok(out) => string_from_utf8(out),
    }
}

// ───────────────────────── sources ─────────────────────────

/// Where an audio clip's sound comes from.
#[derive(Debug, Clone)]
pub enum AudioSource {
    /// A `file://` URL, percent-decoded to a path.
    File(String),
    /// A `data:audio/...` URL.
    Data,
    /// A path, relative to the source document unless absolute.
    Path(String),
}

/// The source an audio clip's `src` names, or why its `file://` URL is bad.
pub open spec fn audio_source_of(src: Seq<char>, r: Result<AudioSource, String>) -> bool {
    if starts_with(src, "file://"@) {
        match spec_percent_decode(encode_utf8(src.subrange(7, src.len() as int))) {
            Ok(p) => r matches Ok(AudioSource::File(s)) && s@ == p,
            Err(e) => r matches Err(m) && m@ == e,
        }
    } else if starts_with(src, "data:audio/"@) {
        r matches Ok(AudioSource::Data)
    } else {
        r matches Ok(AudioSource::Path(s)) && s@ == src
    }
}

/// Classifies an audio clip's `src`.
pub fn classify_audio_src(src: &str) -> (r: Result<AudioSource, String>)
    ensures
        audio_source_of(src@, r),
{
    let cs = chars_of(src);
    let s = cs.as_slice();
    if starts_with_chars(s, "file://") {
        proof {
            reveal_strlit("file://");
        }
        let rest = string_from_chars(&s[7..s.len()]);
        match percent_decode(rest.as_str()) {
            Ok(p) => Ok(AudioSource::File(p)),
            Err(e) => Err(e),
        }
    } else if starts_with_chars(s, "data:audio/") {
        Ok(AudioSource::Data)
    } else {
        Ok(AudioSource::Path(lit(src)))
    }
}

/// Whether a track has the kind `audio`.
pub open spec fn kind_is_audio(t: TrackFields) -> bool {
    t.kind matches Field::Val(k) && k@ == "audio"@
}

/// Whether some track of the source has the kind `audio`.
pub open spec fn has_audio_track(src: RenderSource) -> bool {
    match src.tracks {
        Field::Val(ts) => exists|i: int| 0 <= i < ts@.len() && kind_is_audio(#[trigger] ts@[i]),
        _ => false,
    }
}

/// Whether the source has an audio track.
pub fn source_has_audio_tracks(src: &RenderSource) -> (r: bool)
    ensures
        r == has_audio_track(*src),
{
    let ts = match &src.tracks {
        Field::Val(ts) => ts,
        _ => {
            return false;
        },
    };
    let mut i: usize = 0;
    while i < ts.len()
        invariant
            i <= ts@.len(),
            src.tracks == Field::Val(*ts),
            forall|j: int| 0 <= j < i ==> !kind_is_audio(#[trigger] ts@[j]),
        decreases ts.len() - i,
    {
        if let Field::Val(k) = &ts[i].kind {
            let kc = chars_of(k.as_str());
            if eq_lit(kc.as_slice(), "audio") {
                assert(kind_is_audio(ts@[i as int]));
                assert(src.tracks->0@ == ts@);
                assert(kind_is_audio(src.tracks->0@[i as int]));
                return true;
            }
        }
        i = i + 1;
    }
    false
}

// ───────────────────────── audio clips of a source ─────────────────────────

/// The compact texts of the items of the array stored under `key` in `t`
/// (none when there is no such array).
pub open spec fn array_at(t: Seq<char>, key: Seq<char>) -> Seq<Seq<char>> {
    match json_value_at(t, key) {
        Some(a) => match json_array_items_of(a) {
            Some(items) => items,
            None => seq![],
        },
        None => seq![],
    }
}

/// A track whose `kind` is the string `audio`.
pub open spec fn is_audio_track(t: Seq<char>) -> bool {
    json_string_at(t, "kind"@) == Some("audio"@)
}

/// The `params.src` string of a clip, if it has one.
pub open spec fn clip_src(c: Seq<char>) -> Option<Seq<char>> {
    match json_value_at(c, "params"@) {
        Some(p) => json_string_at(p, "src"@),
        None => None,
    }
}

/// Where a clip starts: `begin` when the clip has that key, else
/// `begin_ms`, and 0 when the value there is not an unsigned integer.
pub open spec fn clip_begin(c: Seq<char>) -> u64 {
    match json_value_at(c, "begin"@) {
        Some(_) => u64_or_zero(json_u64_at(c, "begin"@)),
        None => u64_or_zero(json_u64_at(c, "begin_ms"@)),
    }
}

/// The audio clips among the first `n` clips `cs` of track `ti`: source,
/// start, track and clip position.
pub open spec fn track_audio_clips(cs: Seq<Seq<char>>, ti: int, n: int) -> Seq<(Seq<char>, u64, int, int)>
    decreases n,
{
    if n <= 0 {
        seq![]
    } else {
        let prev = track_audio_clips(cs, ti, n - 1);
        match clip_src(cs[n - 1]) {
            Some(src) => prev.push((src, clip_begin(cs[n - 1]), ti, n - 1)),
            None => prev,
        }
    }
}

/// The audio clips of the first `n` tracks `ts`, track by track.
pub open spec fn audio_clips_upto(ts: Seq<Seq<char>>, n: int) -> Seq<(Seq<char>, u64, int, int)>
    decreases n,
{
    if n <= 0 {
        seq![]
    } else {
        let cs = array_at(ts[n - 1], "clips"@);
        audio_clips_upto(ts, n - 1) + if is_audio_track(ts[n - 1]) {
            track_audio_clips(cs, n - 1, cs.len() as int)
        } else {
            seq![]
        }
    }
}

/// The clips with a `params.src` in the audio tracks of the source `t`.
pub open spec fn source_audio_clips(t: Seq<char>) -> Seq<(Seq<char>, u64, int, int)> {
    audio_clips_upto(array_at(t, "tracks"@), array_at(t, "tracks"@).len() as int)
}

/// Whether the source `t` has an audio track.
pub open spec fn any_audio_track(t: Seq<char>) -> bool {
    exists|i: int| 0 <= i < array_at(t, "tracks"@).len() && is_audio_track(#[trigger] array_at(t, "tracks"@)[i])
}

/// An audio clip to mix: its source, where it starts, and where it stands
/// in the source (track and clip index) for what else the mixer reads.
pub struct AudioClipRef {
    pub src: String,
    pub begin_ms: u64,
    pub track: usize,
    pub clip: usize,
}

pub open spec fn clip_ref_views(v: Seq<AudioClipRef>) -> Seq<(Seq<char>, u64, int, int)> {
    v.map_values(|c: AudioClipRef| (c.src@, c.begin_ms, c.track as int, c.clip as int))
}

fn array_items_at(t: &str, key: &str) -> (r: Vec<String>)
    ensures
        r@.map_values(|s: String| s@) == array_at(t@, key@),
{
    match json_value_field(t, key) {
        Some(a) => match json_array_items(a.as_str()) {
            Some(items) => items,
            None => {
                let v: Vec<String> = Vec::new();
                assert(v@.map_values(|s: String| s@) =~= seq![]);
                v
            },
        },
        None => {
            let v: Vec<String> = Vec::new();
            assert(v@.map_values(|s: String| s@) =~= seq![]);
            v
        },
    }
}

fn clip_src_of(c: &str) -> (r: Option<String>)
    ensures
        match r {
            Some(s) => clip_src(c@) == Some(s@),
            None => clip_src(c@) is None,
        },
{
    match json_value_field(c, "params") {
        Some(p) => json_string_field(p.as_str(), "src"),
        None => None,
    }
}

fn clip_begin_of(c: &str) -> (b: u64)
    ensures
        b == clip_begin(c@),
{
    let v = match json_value_field(c, "begin") {
        Some(_) => json_u64_field(c, "begin"),
        None => json_u64_field(c, "begin_ms"),
    };
    match v {
        Some(n) => n,
        None => 0,
    }
}

/// The audio clips to mix into an export, from the source's JSON text: the
/// clips with a `params.src` of every audio track, in order. A source with
/// an audio track but no such clip is refused, rather than exported silent.
pub fn audio_clips(text: &str) -> (r: Result<Vec<AudioClipRef>, String>)
    ensures
        match r {
            Ok(v) => clip_ref_views(v@) == source_audio_clips(text@) && !(source_audio_clips(text@).len() == 0
                && any_audio_track(text@)),
            Err(m) => m@ == "audio track exists, but no audio clip has params.src"@ && source_audio_clips(text@).len()
                == 0 && any_audio_track(text@),
        },
{
    let tracks = array_items_at(text, "tracks");
    let ghost ts = array_at(text@, "tracks"@);
    let mut out: Vec<AudioClipRef> = Vec::new();
    let mut any = false;
    let mut i: usize = 0;
    while i < tracks.len()
        invariant
            i <= tracks.len(),
            tracks@.map_values(|s: String| s@) == ts,
            ts == array_at(text@, "tracks"@),
            clip_ref_views(out@) == audio_clips_upto(ts, i as int),
            any == exists|j: int| 0 <= j < i && is_audio_track(#[trigger] ts[j]),
        decreases tracks.len() - i,
    {
        let t = tracks[i].as_str();
        assert(t@ == ts[i as int]);
        let audio = match json_string_field(t, "kind") {
            Some(k) => same_text(k.as_str(), "audio"),
            None => false,
        };
        let ghost base = clip_ref_views(out@);
        if audio {
            any = true;
            let clips = array_items_at(t, "clips");
            let ghost cs = array_at(t@, "clips"@);
            let mut j: usize = 0;
            while j < clips.len()
                invariant
                    j <= clips.len(),
                    clips@.map_values(|s: String| s@) == cs,
                    clip_ref_views(out@) == base + track_audio_clips(cs, i as int, j as int),
                    i < tracks.len(),
                decreases clips.len() - j,
            {
                let c = clips[j].as_str();
                assert(c@ == cs[j as int]);
                match clip_src_of(c) {
                    Some(src) => {
                        let b = clip_begin_of(c);
                        let ghost prev = out@;
                        out.push(AudioClipRef { src, begin_ms: b, track: i, clip: j });
                        proof {
                            assert(clip_ref_views(out@) =~= clip_ref_views(prev).push(
                                (out@.last().src@, b, i as int, j as int),
                            ));
                        }
                    },
                    None => {},
                }
                j = j + 1;
            }
            proof {
                assert(clip_ref_views(out@) =~= audio_clips_upto(ts, i + 1));
            }
        } else {
            proof {
                assert(audio_clips_upto(ts, i + 1) =~= audio_clips_upto(ts, i as int));
            }
        }
        proof {
            if !audio {
                assert forall|j: int| 0 <= j < i + 1 && is_audio_track(#[trigger] ts[j]) implies j < i by {}
            } else {
                assert(is_audio_track(ts[i as int]));
            }
        }
        i = i + 1;
    }
    if out.len() == 0 && any {
        return Err(lit("audio track exists, but no audio clip has params.src"));
    }
    Ok(out)
}

} // verus!
