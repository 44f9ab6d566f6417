//! Render sources (`capy.timeline.render_source.v1`): the checks a source
//! must pass before export, and the stage background it asks for.

use vstd::prelude::*;
use crate::text::texts;
use crate::project::json::{
    json_array_items, json_array_items_of, json_kind, json_kind_of, json_object_len, json_object_len_of, json_parse_failure,
    json_parse_problem, json_string_at, json_string_field, json_u64_at, json_u64_field, json_value_at, json_value_field,
    JsonKind,
};
use crate::mp4::verdict::lit;
use crate::text::{decimal, decimal_chars, framed, ascii_lower, ascii_lower_chars, chars_eq, chars_of, find, find_chars, string_from_chars, trim, trim_chars, utf8_len, utf8_longer_than};

verus! {

/// A JSON field as the validator reads it: absent, present with a value of
/// another type, or present with a value of the expected type.
#[derive(Debug, Clone)]
pub enum Field<T> {
    Absent,
    Wrong,
    Val(T),
}

/// `theme` string values at `background`, `bg`, `colors.background`,
/// `colors.bg` and `css` (each `None` unless a string is there).
#[derive(Debug, Clone)]
pub struct ThemeFields {
    pub background: Option<String>,
    pub bg: Option<String>,
    pub colors_background: Option<String>,
    pub colors_bg: Option<String>,
    pub css: Option<String>,
}

/// `viewport.w` and `viewport.h` read as unsigned integers.
#[derive(Debug, Clone)]
pub struct ViewportFields {
    pub w: Field<u64>,
    pub h: Field<u64>,
}

/// One clip of a track: its id and begin/end, under both key spellings.
#[derive(Debug, Clone)]
pub struct ClipFields {
    pub id: Option<String>,
    pub begin_ms: Field<u64>,
    pub begin: Field<u64>,
    pub end_ms: Field<u64>,
    pub end: Field<u64>,
}

/// One track: its id, kind and clips array.
#[derive(Debug, Clone)]
pub struct TrackFields {
    pub id: Option<String>,
    pub kind: Field<String>,
    pub clips: Field<Vec<ClipFields>>,
}

/// What validation reads from a render source document.
#[derive(Debug, Clone)]
pub struct RenderSource {
    /// The document is a JSON object.
    pub is_object: bool,
    pub schema_version: Field<String>,
    pub duration_ms: Field<u64>,
    pub viewport: Field<ViewportFields>,
    pub tracks: Field<Vec<TrackFields>>,
    /// Number of entries of the `components` object, if it is one.
    pub components: Option<usize>,
    pub theme: ThemeFields,
}

// ───────────────────────── stage background ─────────────────────────

/// CSS colour keywords the stage accepts.
pub open spec fn is_named_colour(lower: Seq<char>) -> bool {
    lower == "black"@ || lower == "white"@ || lower == "transparent"@ || lower == "canvas"@
        || lower == "currentcolor"@
}

pub open spec fn starts_with(s: Seq<char>, p: Seq<char>) -> bool {
    p.len() <= s.len() && s.subrange(0, p.len() as int) == p
}

pub open spec fn is_hex_digit(c: char) -> bool {
    ('0' <= c && c <= '9') || ('a' <= c && c <= 'f') || ('A' <= c && c <= 'F')
}

/// A stage background value: a named colour, an `rgb(`/`rgba(`/`hsl(`/`hsla(`
/// function, or a `#` hex colour of 3, 4, 6 or 8 digits; at most 96 bytes,
/// without `;`, `{` or `}`. The value is the trimmed input.
pub open spec fn spec_sanitize(raw: Seq<char>) -> Option<Seq<char>> {
    let value = trim(raw);
    if value.len() == 0 || utf8_len(value) > 96 || value.contains(';') || value.contains('{')
        || value.contains('}') {
        None
    } else {
        let lower = ascii_lower(value);
        let named = is_named_colour(lower);
        let functional = starts_with(lower, "rgb("@) || starts_with(lower, "rgba("@)
            || starts_with(lower, "hsl("@) || starts_with(lower, "hsla("@);
        let hex = starts_with(lower, "#"@) && (lower.len() == 4 || lower.len() == 5 || lower.len()
            == 7 || lower.len() == 9) && forall|i: int|
            1 <= i < lower.len() ==> is_hex_digit(#[trigger] lower[i]);
        if named || functional || hex {
            Some(value)
        } else {
            None
        }
    }
}

fn has_char(s: &[char], c: char) -> (r: bool)
    ensures
        r == s@.contains(c),
{
    let mut i: usize = 0;
    while i < s.len()
        invariant
            i <= s.len(),
            forall|k: int| 0 <= k < i ==> s@[k] != c,
        decreases s.len() - i,
    {
        if s[i] == c {
            return true;
        }
        i = i + 1;
    }
    false
}

/// Whether the characters `s` begin with the string `p`.
pub fn starts_with_chars(s: &[char], p: &str) -> (r: bool)
    ensures
        r == starts_with(s@, p@),
{
    let pc = chars_of(p);
    if pc.len() > s.len() {
        return false;
    }
    let head = &s[0..pc.len()];
    chars_eq(head, pc.as_slice())
}

/// Whether the characters `s` are exactly the string `p`.
pub fn eq_lit(s: &[char], p: &str) -> (r: bool)
    ensures
        r == (s@ == p@),
{
    let pc = chars_of(p);
    chars_eq(s, pc.as_slice())
}

fn is_hex_digit_exec(c: char) -> (r: bool)
    ensures
        r == is_hex_digit(c),
{
    ('0' <= c && c <= '9') || ('a' <= c && c <= 'f') || ('A' <= c && c <= 'F')
}

/// Checks a stage background value; `None` when it is not a safe colour.
pub fn sanitize_stage_background(raw: &str) -> (r: Option<String>)
    ensures
        match spec_sanitize(raw@) {
            Some(v) => r matches Some(s) && s@ == v,
            None => r is None,
        },
{
    let all = chars_of(raw);
    let value = trim_chars(all.as_slice());
    if value.len() == 0 || utf8_longer_than(value.as_slice(), 96) || has_char(value.as_slice(), ';')
        || has_char(value.as_slice(), '{') || has_char(value.as_slice(), '}') {
        return None;
    }
    let lower = ascii_lower_chars(value.as_slice());
    let l = lower.as_slice();
    let named = eq_lit(l, "black") || eq_lit(l, "white") || eq_lit(l, "transparent") || eq_lit(
        l,
        "canvas",
    ) || eq_lit(l, "currentcolor");
    let functional = starts_with_chars(l, "rgb(") || starts_with_chars(l, "rgba(")
        || starts_with_chars(l, "hsl(") || starts_with_chars(l, "hsla(");
    let mut hex = starts_with_chars(l, "#") && (l.len() == 4 || l.len() == 5 || l.len() == 7
        || l.len() == 9);
    if hex {
        let mut i: usize = 1;
        while i < l.len()
            invariant
                1 <= i <= l@.len(),
                hex == (forall|k: int| 1 <= k < i ==> is_hex_digit(#[trigger] l@[k])),
            decreases l.len() - i,
        {
            if !is_hex_digit_exec(l[i]) {
                hex = false;
            }
            i = i + 1;
        }
    }
    if named || functional || hex {
        Some(string_from_chars(value.as_slice()))
    } else {
        None
    }
}

/// The trimmed value between the first `:` after the first occurrence of
/// `name` in `css` and the first `;` after that colon.
pub open spec fn spec_css_property(css: Seq<char>, name: Seq<char>) -> Option<Seq<char>> {
    match find(css, name) {
        None => None,
        Some(start) => {
            let rest = css.subrange(start + name.len(), css.len() as int);
            match find(rest, seq![':']) {
                None => None,
                Some(colon) => {
                    let rest2 = rest.subrange(colon + 1, rest.len() as int);
                    match find(rest2, seq![';']) {
                        None => None,
                        Some(end) => Some(trim(rest2.subrange(0, end))),
                    }
                },
            }
        },
    }
}

/// Reads a CSS custom property's value out of a stylesheet text.
pub fn extract_css_custom_property(css: &[char], name: &[char]) -> (r: Option<Vec<char>>)
    ensures
        match spec_css_property(css@, name@) {
            Some(v) => r matches Some(x) && x@ == v,
            None => r is None,
        },
{
    let start = match find_chars(css, name) {
        None => {
            return None;
        },
        Some(i) => i,
    };
    let total: usize = css.len();
    let rest = &css[start + name.len()..total];
    let colon_pat = [':'];
    let semi_pat = [';'];
    proof {
        assert(colon_pat@ =~= seq![':']);
        assert(semi_pat@ =~= seq![';']);
    }
    let colon = match find_chars(rest, &colon_pat) {
        None => {
            return None;
        },
        Some(i) => i,
    };
    let rest2 = &rest[colon + 1..rest.len()];
    let end = match find_chars(rest2, &semi_pat) {
        None => {
            return None;
        },
        Some(i) => i,
    };
    Some(trim_chars(&rest2[0..end]))
}

pub open spec fn opt_view(o: Option<String>) -> Option<Seq<char>> {
    match o {
        Some(s) => Some(s@),
        None => None,
    }
}

/// The sanitized value of an optional theme string, if any.
pub open spec fn try_bg(o: Option<Seq<char>>) -> Option<Seq<char>> {
    match o {
        Some(raw) => spec_sanitize(raw),
        None => None,
    }
}

/// The stage background: the first safe value among `background`, `bg`,
/// `colors.background`, `colors.bg` and the `--capy-timeline-bg` property of
/// `css`; `#000` otherwise.
pub open spec fn spec_stage_background(t: ThemeFields) -> Seq<char> {
    if try_bg(opt_view(t.background)) is Some {
        try_bg(opt_view(t.background)).unwrap()
    } else if try_bg(opt_view(t.bg)) is Some {
        try_bg(opt_view(t.bg)).unwrap()
    } else if try_bg(opt_view(t.colors_background)) is Some {
        try_bg(opt_view(t.colors_background)).unwrap()
    } else if try_bg(opt_view(t.colors_bg)) is Some {
        try_bg(opt_view(t.colors_bg)).unwrap()
    } else {
        let from_css = match opt_view(t.css) {
            None => None,
            Some(css) => try_bg(spec_css_property(css, "--capy-timeline-bg"@)),
        };
        match from_css {
            Some(v) => v,
            None => "#000"@,
        }
    }
}

fn try_bg_exec(o: &Option<String>) -> (r: Option<String>)
    ensures
        match try_bg(opt_view(*o)) {
            Some(v) => r matches Some(s) && s@ == v,
            None => r is None,
        },
{
    match o {
        Some(raw) => sanitize_stage_background(raw.as_str()),
        None => None,
    }
}

/// Picks the stage background from a source's theme.
pub fn resolve_stage_background(t: &ThemeFields) -> (s: String)
    ensures
        s@ == spec_stage_background(*t),
{
    if let Some(v) = try_bg_exec(&t.background) {
        return v;
    }
    if let Some(v) = try_bg_exec(&t.bg) {
        return v;
    }
    if let Some(v) = try_bg_exec(&t.colors_background) {
        return v;
    }
    if let Some(v) = try_bg_exec(&t.colors_bg) {
        return v;
    }
    if let Some(css) = &t.css {
        let css_chars = chars_of(css.as_str());
        let name = chars_of("--capy-timeline-bg");
        if let Some(raw) = extract_css_custom_property(css_chars.as_slice(), name.as_slice()) {
            let raw_s = string_from_chars(raw.as_slice());
            if let Some(v) = sanitize_stage_background(raw_s.as_str()) {
                return v;
            }
        }
    }
    lit("#000")
}

} // verus!

verus! {

// ───────────────────────── validation ─────────────────────────

/// What a valid render source amounts to.
#[derive(Debug)]
pub struct RenderSourceSummary {
    pub schema_version: String,
    pub duration_ms: u64,
    pub viewport: (u32, u32),
    pub tracks: usize,
    pub clips: usize,
    pub components: usize,
    pub visual_tracks: usize,
    pub audio_tracks: usize,
    pub background: String,
    pub warnings: Vec<String>,
}

/// Counts and warnings gathered over the tracks: clips, visual tracks,
/// audio tracks, warnings.
pub type Tally = (nat, nat, nat, Seq<Seq<char>>);

/// An id as messages show it; `<missing>` when there is none.
pub open spec fn id_text(o: Option<String>) -> Seq<char> {
    match o {
        Some(s) => s@,
        None => "<missing>"@,
    }
}

/// `begin_ms`, or `begin` when `begin_ms` is absent.
pub open spec fn begin_field(c: ClipFields) -> Field<u64> {
    match c.begin_ms {
        Field::Absent => c.begin,
        other => other,
    }
}

/// `end_ms`, or `end` when `end_ms` is absent.
pub open spec fn end_field(c: ClipFields) -> Field<u64> {
    match c.end_ms {
        Field::Absent => c.end,
        other => other,
    }
}

/// `clip '<track>.<clip>` as messages begin.
pub open spec fn clip_label(tid: Seq<char>, c: ClipFields) -> Seq<char> {
    "clip '"@ + (tid + seq!['.'] + id_text(c.id))
}

/// One clip checked after the warnings `w` gathered so far.
pub open spec fn clip_step(tid: Seq<char>, c: ClipFields, duration: u64, w: Seq<Seq<char>>) -> Result<
    Seq<Seq<char>>,
    Seq<char>,
> {
    let label = clip_label(tid, c);
    match begin_field(c) {
        Field::Val(b) => match end_field(c) {
            Field::Val(e) => if e <= b {
                Err(label + "' end_ms must be greater than begin_ms"@)
            } else if e > duration {
                Ok(w.push(label + "' ends after source duration"@))
            } else {
                Ok(w)
            },
            _ => Err(label + "' end_ms is required"@),
        },
        _ => Err(label + "' begin_ms is required"@),
    }
}

/// The clips of one track checked in order: the warnings, or the first error.
pub open spec fn scan_clips(tid: Seq<char>, cs: Seq<ClipFields>, duration: u64, w: Seq<Seq<char>>) -> Result<
    Seq<Seq<char>>,
    Seq<char>,
>
    decreases cs.len(),
{
    if cs.len() == 0 {
        Ok(w)
    } else {
        match scan_clips(tid, cs.drop_last(), duration, w) {
            Err(e) => Err(e),
            Ok(w2) => clip_step(tid, cs.last(), duration, w2),
        }
    }
}

/// One track checked after the tally `acc` of the tracks before it.
pub open spec fn track_step(t: TrackFields, duration: u64, acc: Tally) -> Result<Tally, Seq<char>> {
    let tid = id_text(t.id);
    match t.kind {
        Field::Val(kind) => {
            let is_audio = kind@ == "audio"@;
            match t.clips {
                Field::Val(cs) => {
                    let w0 = if cs@.len() == 0 {
                        acc.3.push("track '"@ + tid + "' has no clips"@)
                    } else {
                        acc.3
                    };
                    match scan_clips(tid, cs@, duration, w0) {
                        Err(e) => Err(e),
                        Ok(w) => Ok(
                            (
                                acc.0 + cs@.len(),
                                if is_audio {
                                    acc.1
                                } else {
                                    acc.1 + 1
                                },
                                if is_audio {
                                    acc.2 + 1
                                } else {
                                    acc.2
                                },
                                w,
                            ),
                        ),
                    }
                },
                _ => Err("track '"@ + tid + "' clips array is required"@),
            }
        },
        _ => Err("track '"@ + tid + "' kind is required"@),
    }
}

/// The tracks checked in order: the tally, or the first error.
pub open spec fn scan_tracks(ts: Seq<TrackFields>, duration: u64) -> Result<Tally, Seq<char>>
    decreases ts.len(),
{
    if ts.len() == 0 {
        Ok((0, 0, 0, seq![]))
    } else {
        match scan_tracks(ts.drop_last(), duration) {
            Err(e) => Err(e),
            Ok(acc) => track_step(ts.last(), duration, acc),
        }
    }
}

/// Clips over all tracks that carry a clips array.
pub open spec fn clip_total(ts: Seq<TrackFields>) -> nat
    decreases ts.len(),
{
    if ts.len() == 0 {
        0
    } else {
        clip_total(ts.drop_last()) + match ts.last().clips {
            Field::Val(cs) => cs@.len(),
            _ => 0,
        }
    }
}

pub open spec fn u64_of(f: Field<u64>) -> u64 {
    match f {
        Field::Val(v) => v,
        _ => 0,
    }
}

pub open spec fn viewport_of(src: RenderSource) -> ViewportFields {
    match src.viewport {
        Field::Val(vp) => vp,
        _ => ViewportFields { w: Field::Absent, h: Field::Absent },
    }
}

pub open spec fn tracks_of(src: RenderSource) -> Seq<TrackFields> {
    match src.tracks {
        Field::Val(ts) => ts@,
        _ => seq![],
    }
}

/// The first problem of the document-level fields, if any.
pub open spec fn header_issue(src: RenderSource) -> Option<Seq<char>> {
    let vp = viewport_of(src);
    let w = u64_of(vp.w);
    let h = u64_of(vp.h);
    if !src.is_object {
        Some("render source must be a JSON object"@)
    } else if !(src.schema_version is Val) {
        Some("schema_version is required"@)
    } else if src.schema_version->0@ != "capy.timeline.render_source.v1"@ {
        Some(
            "schema_version must be capy.timeline.render_source.v1 (got "@ + src.schema_version->0@
                + ")"@,
        )
    } else if !(src.duration_ms is Val) {
        Some("duration_ms is required"@)
    } else if src.duration_ms->0 == 0 {
        Some("duration_ms must be > 0"@)
    } else if !(src.viewport is Val) {
        Some("viewport object is required"@)
    } else if !(vp.w is Val) {
        Some("viewport.w is required"@)
    } else if !(vp.h is Val) {
        Some("viewport.h is required"@)
    } else if w == 0 || h == 0 || w > u32::MAX || h > u32::MAX {
        Some(
            "viewport must be a positive u32 size (got "@ + (decimal(w as nat) + seq!['x'] + decimal(
                h as nat,
            )) + ")"@,
        )
    } else if !(src.tracks is Val) {
        Some("tracks array is required"@)
    } else if tracks_of(src).len() == 0 {
        Some("tracks must not be empty"@)
    } else {
        None
    }
}

/// Validation of a render source: the tally over its tracks, or the
/// message of the first problem.
pub open spec fn spec_validate(src: RenderSource) -> Result<Tally, Seq<char>> {
    match header_issue(src) {
        Some(e) => Err(e),
        None => match scan_tracks(tracks_of(src), u64_of(src.duration_ms)) {
            Err(e) => Err(e),
            Ok(t) => if t.1 == 0 {
                Err("at least one non-audio visual track is required"@)
            } else {
                Ok(t)
            },
        },
    }
}

/// The summary reported for a valid source with tally `t`.
pub open spec fn summary_matches(s: RenderSourceSummary, src: RenderSource, t: Tally) -> bool {
    let vp = viewport_of(src);
    &&& s.schema_version@ == "capy.timeline.render_source.v1"@
    &&& s.duration_ms == u64_of(src.duration_ms)
    &&& s.viewport.0 == u64_of(vp.w)
    &&& s.viewport.1 == u64_of(vp.h)
    &&& s.tracks == tracks_of(src).len()
    &&& s.clips == t.0
    &&& s.visual_tracks == t.1
    &&& s.audio_tracks == t.2
    &&& s.components == match src.components {
        Some(n) => n,
        None => 0,
    }
    &&& s.background@ == spec_stage_background(src.theme)
    &&& texts(s.warnings@) == t.3
}

proof fn lemma_scan_tracks_err(ts: Seq<TrackFields>, d: u64, i: int, k: int, e: Seq<char>)
    requires
        0 <= i <= k <= ts.len(),
        scan_tracks(ts.take(i), d) == Err::<Tally, Seq<char>>(e),
    ensures
        scan_tracks(ts.take(k), d) == Err::<Tally, Seq<char>>(e),
    decreases k - i,
{
    if k > i {
        lemma_scan_tracks_err(ts, d, i, k - 1, e);
        assert(ts.take(k).drop_last() =~= ts.take(k - 1));
    }
}

proof fn lemma_scan_clips_err(
    tid: Seq<char>,
    cs: Seq<ClipFields>,
    d: u64,
    w: Seq<Seq<char>>,
    i: int,
    k: int,
    e: Seq<char>,
)
    requires
        0 <= i <= k <= cs.len(),
        scan_clips(tid, cs.take(i), d, w) == Err::<Seq<Seq<char>>, Seq<char>>(e),
    ensures
        scan_clips(tid, cs.take(k), d, w) == Err::<Seq<Seq<char>>, Seq<char>>(e),
    decreases k - i,
{
    if k > i {
        lemma_scan_clips_err(tid, cs, d, w, i, k - 1, e);
        assert(cs.take(k).drop_last() =~= cs.take(k - 1));
    }
}

proof fn lemma_clip_total_prefix(ts: Seq<TrackFields>, i: int)
    requires
        0 <= i <= ts.len(),
    ensures
        clip_total(ts.take(i)) <= clip_total(ts),
    decreases ts.len(),
{
    if i < ts.len() {
        assert(ts.drop_last().take(i) =~= ts.take(i));
        lemma_clip_total_prefix(ts.drop_last(), i);
    } else {
        assert(ts.take(i) =~= ts);
    }
}

fn id_chars(o: &Option<String>) -> (v: Vec<char>)
    ensures
        v@ == id_text(*o),
{
    match o {
        Some(s) => chars_of(s.as_str()),
        None => chars_of("<missing>"),
    }
}

/// `a`, then `sep`, then `b`.
fn joined(a: &[char], sep: char, b: &[char]) -> (v: Vec<char>)
    ensures
        v@ == a@ + seq![sep] + b@,
{
    let mut v: Vec<char> = Vec::new();
    let mut i: usize = 0;
    while i < a.len()
        invariant
            i <= a.len(),
            v@ == a@.take(i as int),
        decreases a.len() - i,
    {
        v.push(a[i]);
        proof {
            assert(a@.take(i + 1) =~= a@.take(i as int).push(a@[i as int]));
        }
        i = i + 1;
    }
    v.push(sep);
    let mut j: usize = 0;
    while j < b.len()
        invariant
            j <= b.len(),
            i == a.len(),
            v@ == a@.take(i as int) + seq![sep] + b@.take(j as int),
        decreases b.len() - j,
    {
        v.push(b[j]);
        proof {
            assert(b@.take(j + 1) =~= b@.take(j as int).push(b@[j as int]));
            assert(a@.take(i as int) + seq![sep] + b@.take(j + 1) =~= (a@.take(i as int) + seq![sep]
                + b@.take(j as int)).push(b@[j as int]));
        }
        j = j + 1;
    }
    proof {
        assert(a@.take(a.len() as int) =~= a@);
        assert(b@.take(b.len() as int) =~= b@);
    }
    v
}

/// Checks the clips of one track, appending warnings; the error of the
/// first clip that fails.
fn check_clips(tid: &[char], cs: &Vec<ClipFields>, duration: u64, warnings: &mut Vec<String>) -> (r:
    Result<(), String>)
    ensures
        match scan_clips(tid@, cs@, duration, texts(old(warnings)@)) {
            Err(e) => r matches Err(m) && m@ == e,
            Ok(w) => r is Ok && texts(final(warnings)@) == w,
        },
{
    let ghost w0 = texts(warnings@);
    let mut j: usize = 0;
    while j < cs.len()
        invariant
            j <= cs.len(),
            w0 == texts(old(warnings)@),
            scan_clips(tid@, cs@.take(j as int), duration, w0) == Ok::<Seq<Seq<char>>, Seq<char>>(
                texts(warnings@),
            ),
        decreases cs.len() - j,
    {
        let c = &cs[j];
        proof {
            assert(cs@.take(j + 1).drop_last() =~= cs@.take(j as int));
            assert(cs@.take(j + 1).last() == c);
        }
        let cid = id_chars(&c.id);
        let name = joined(tid, '.', cid.as_slice());
        let b = match &c.begin_ms {
            Field::Absent => &c.begin,
            other => other,
        };
        let e = match &c.end_ms {
            Field::Absent => &c.end,
            other => other,
        };
        let err: Option<String> = match b {
            Field::Val(bv) => match e {
                Field::Val(ev) => if *ev <= *bv {
                    Some(framed("clip '", name.as_slice(), "' end_ms must be greater than begin_ms"))
                } else {
                    if *ev > duration {
                        let ghost before = warnings@;
                        warnings.push(framed("clip '", name.as_slice(), "' ends after source duration"));
                        proof {
                            assert(texts(warnings@) =~= texts(before).push(warnings@.last()@));
                        }
                    }
                    None
                },
                _ => Some(framed("clip '", name.as_slice(), "' end_ms is required")),
            },
            _ => Some(framed("clip '", name.as_slice(), "' begin_ms is required")),
        };
        if let Some(m) = err {
            proof {
                lemma_scan_clips_err(tid@, cs@, duration, w0, j + 1, cs@.len() as int, m@);
                assert(cs@.take(cs@.len() as int) =~= cs@);
            }
            return Err(m);
        }
        j = j + 1;
    }
    proof {
        assert(cs@.take(cs@.len() as int) =~= cs@);
    }
    Ok(())
}

/// Checks a render source against the `capy.timeline.render_source.v1`
/// contract and summarises it; the message of the first problem otherwise.
pub fn validate_render_source(src: &RenderSource) -> (r: Result<RenderSourceSummary, String>)
    requires
        clip_total(tracks_of(*src)) <= usize::MAX,
    ensures
        match spec_validate(*src) {
            Err(e) => r matches Err(m) && m@ == e,
            Ok(t) => r matches Ok(s) && summary_matches(s, *src, t),
        },
{
    if !src.is_object {
        return Err(lit("render source must be a JSON object"));
    }
    let sv = match &src.schema_version {
        Field::Val(s) => s,
        _ => {
            return Err(lit("schema_version is required"));
        },
    };
    let sv_chars = chars_of(sv.as_str());
    if !eq_lit(sv_chars.as_slice(), "capy.timeline.render_source.v1") {
        return Err(
            framed(
                "schema_version must be capy.timeline.render_source.v1 (got ",
                sv_chars.as_slice(),
                ")",
            ),
        );
    }
    let duration = match &src.duration_ms {
        Field::Val(d) => *d,
        _ => {
            return Err(lit("duration_ms is required"));
        },
    };
    if duration == 0 {
        return Err(lit("duration_ms must be > 0"));
    }
    let vp = match &src.viewport {
        Field::Val(vp) => vp,
        _ => {
            return Err(lit("viewport object is required"));
        },
    };
    let w = match &vp.w {
        Field::Val(w) => *w,
        _ => {
            return Err(lit("viewport.w is required"));
        },
    };
    let h = match &vp.h {
        Field::Val(h) => *h,
        _ => {
            return Err(lit("viewport.h is required"));
        },
    };
    if w == 0 || h == 0 || w > 4294967295u64 || h > 4294967295u64 {
        let wd = decimal_chars(w);
        let hd = decimal_chars(h);
        let size = joined(wd.as_slice(), 'x', hd.as_slice());
        return Err(framed("viewport must be a positive u32 size (got ", size.as_slice(), ")"));
    }
    let ts = match &src.tracks {
        Field::Val(ts) => ts,
        _ => {
            return Err(lit("tracks array is required"));
        },
    };
    if ts.len() == 0 {
        return Err(lit("tracks must not be empty"));
    }
    let components: usize = match src.components {
        Some(n) => n,
        None => 0,
    };
    let background = resolve_stage_background(&src.theme);
    let mut warnings: Vec<String> = Vec::new();
    let mut clips: usize = 0;
    let mut visual: usize = 0;
    let mut audio: usize = 0;
    let mut i: usize = 0;
    proof {
        assert(ts@.take(0) =~= Seq::<TrackFields>::empty());
        assert(texts(warnings@) =~= Seq::<Seq<char>>::empty());
    }
    while i < ts.len()
        invariant
            i <= ts.len(),
            ts@ == tracks_of(*src),
            header_issue(*src) is None,
            duration == u64_of(src.duration_ms),
            clip_total(ts@) <= usize::MAX,
            visual + audio == i,
            clips == clip_total(ts@.take(i as int)),
            scan_tracks(ts@.take(i as int), duration) == Ok::<Tally, Seq<char>>(
                (clips as nat, visual as nat, audio as nat, texts(warnings@)),
            ),
        decreases ts.len() - i,
    {
        let t = &ts[i];
        let ghost acc: Tally = (clips as nat, visual as nat, audio as nat, texts(warnings@));
        proof {
            assert(ts@.take(i + 1).drop_last() =~= ts@.take(i as int));
            assert(ts@.take(i + 1).last() == t);
            lemma_clip_total_prefix(ts@, i + 1);
        }
        let tid = id_chars(&t.id);
        let kind = match &t.kind {
            Field::Val(k) => k,
            _ => {
                let m = framed("track '", tid.as_slice(), "' kind is required");
                proof {
                    lemma_scan_tracks_err(ts@, duration, i + 1, ts@.len() as int, m@);
                    assert(ts@.take(ts@.len() as int) =~= ts@);
                }
                return Err(m);
            },
        };
        let kind_chars = chars_of(kind.as_str());
        let is_audio = eq_lit(kind_chars.as_slice(), "audio");
        let cs = match &t.clips {
            Field::Val(cs) => cs,
            _ => {
                let m = framed("track '", tid.as_slice(), "' clips array is required");
                proof {
                    lemma_scan_tracks_err(ts@, duration, i + 1, ts@.len() as int, m@);
                    assert(ts@.take(ts@.len() as int) =~= ts@);
                }
                return Err(m);
            },
        };
        if cs.len() == 0 {
            let ghost before = warnings@;
            warnings.push(framed("track '", tid.as_slice(), "' has no clips"));
            proof {
                assert(texts(warnings@) =~= texts(before).push(warnings@.last()@));
            }
        }
        match check_clips(tid.as_slice(), cs, duration, &mut warnings) {
            Err(m) => {
                proof {
                    lemma_scan_tracks_err(ts@, duration, i + 1, ts@.len() as int, m@);
                    assert(ts@.take(ts@.len() as int) =~= ts@);
                }
                return Err(m);
            },
            Ok(()) => {},
        }
        clips = clips + cs.len();
        if is_audio {
            audio = audio + 1;
        } else {
            visual = visual + 1;
        }
        i = i + 1;
    }
    proof {
        assert(ts@.take(ts@.len() as int) =~= ts@);
    }
    if visual == 0 {
        return Err(lit("at least one non-audio visual track is required"));
    }
    Ok(
        RenderSourceSummary {
            schema_version: lit("capy.timeline.render_source.v1"),
            duration_ms: duration,
            viewport: (w as u32, h as u32),
            tracks: ts.len(),
            clips,
            components,
            visual_tracks: visual,
            audio_tracks: audio,
            background,
            warnings,
        },
    )
}

// ───────────────────────── reading from JSON text ─────────────────────────

/// `f` is what the document `t` holds under `k` as a string: absent when
/// the key is missing, wrong when its value is not a string.
pub open spec fn is_text_field(f: Field<String>, t: Seq<char>, k: Seq<char>) -> bool {
    match json_value_at(t, k) {
        None => f is Absent,
        Some(_) => match json_string_at(t, k) {
            Some(v) => f matches Field::Val(x) && x@ == v,
            None => f is Wrong,
        },
    }
}

/// `f` is what `t` holds under `k` as an unsigned integer.
pub open spec fn is_number_field(f: Field<u64>, t: Seq<char>, k: Seq<char>) -> bool {
    match json_value_at(t, k) {
        None => f is Absent,
        Some(_) => match json_u64_at(t, k) {
            Some(v) => f == Field::Val(v),
            None => f is Wrong,
        },
    }
}

/// `o` is the string `t` holds under `k`, if any.
pub open spec fn is_opt_text(o: Option<String>, t: Seq<char>, k: Seq<char>) -> bool {
    opt_view(o) == json_string_at(t, k)
}

/// `c` is what validation reads of the clip `t`.
pub open spec fn is_clip_of(c: ClipFields, t: Seq<char>) -> bool {
    &&& is_opt_text(c.id, t, "id"@)
    &&& is_number_field(c.begin_ms, t, "begin_ms"@)
    &&& is_number_field(c.begin, t, "begin"@)
    &&& is_number_field(c.end_ms, t, "end_ms"@)
    &&& is_number_field(c.end, t, "end"@)
}

/// `f` is the array of clips `t` holds under `clips`.
pub open spec fn is_clips_field(f: Field<Vec<ClipFields>>, t: Seq<char>) -> bool {
    match json_value_at(t, "clips"@) {
        None => f is Absent,
        Some(ct) => match json_array_items_of(ct) {
            None => f is Wrong,
            Some(items) => f matches Field::Val(cs) && cs@.len() == items.len()
                && forall|i: int| 0 <= i < items.len() ==> is_clip_of(#[trigger] cs@[i], items[i]),
        },
    }
}

/// `tr` is what validation reads of the track `t`.
pub open spec fn is_track_of(tr: TrackFields, t: Seq<char>) -> bool {
    &&& is_opt_text(tr.id, t, "id"@)
    &&& is_text_field(tr.kind, t, "kind"@)
    &&& is_clips_field(tr.clips, t)
}

/// The theme object of the document `t` (none when it has no `theme`).
pub open spec fn theme_text(t: Seq<char>) -> Option<Seq<char>> {
    json_value_at(t, "theme"@)
}

/// `o` is the string at `k` of the theme (or of its `colors` object).
pub open spec fn is_theme_text(o: Option<String>, theme: Option<Seq<char>>, nested: bool, k: Seq<char>) -> bool {
    match theme {
        None => o is None,
        Some(th) => if nested {
            match json_value_at(th, "colors"@) {
                None => o is None,
                Some(c) => is_opt_text(o, c, k),
            }
        } else {
            is_opt_text(o, th, k)
        },
    }
}

/// `src` is what validation reads of the JSON document `t`.
pub open spec fn is_render_source_of(src: RenderSource, t: Seq<char>) -> bool {
    let th = theme_text(t);
    &&& src.is_object == (json_kind_of(t) == Some(JsonKind::Object))
    &&& is_text_field(src.schema_version, t, "schema_version"@)
    &&& is_number_field(src.duration_ms, t, "duration_ms"@)
    &&& match json_value_at(t, "viewport"@) {
        None => src.viewport is Absent,
        Some(vt) => if json_kind_of(vt) == Some(JsonKind::Object) {
            src.viewport matches Field::Val(vp) && is_number_field(vp.w, vt, "w"@) && is_number_field(vp.h, vt, "h"@)
        } else {
            src.viewport is Wrong
        },
    }
    &&& match json_value_at(t, "tracks"@) {
        None => src.tracks is Absent,
        Some(tt) => match json_array_items_of(tt) {
            None => src.tracks is Wrong,
            Some(items) => src.tracks matches Field::Val(ts) && ts@.len() == items.len()
                && forall|i: int| 0 <= i < items.len() ==> is_track_of(#[trigger] ts@[i], items[i]),
        },
    }
    &&& src.components == match json_value_at(t, "components"@) {
        None => None,
        Some(ct) => json_object_len_of(ct),
    }
    &&& is_theme_text(src.theme.background, th, false, "background"@)
    &&& is_theme_text(src.theme.bg, th, false, "bg"@)
    &&& is_theme_text(src.theme.colors_background, th, true, "background"@)
    &&& is_theme_text(src.theme.colors_bg, th, true, "bg"@)
    &&& is_theme_text(src.theme.css, th, false, "css"@)
}

fn text_field(t: &str, k: &str) -> (f: Field<String>)
    ensures
        is_text_field(f, t@, k@),
{
    match json_value_field(t, k) {
        None => Field::Absent,
        Some(_) => match json_string_field(t, k) {
            Some(v) => Field::Val(v),
            None => Field::Wrong,
        },
    }
}

/// `f` is what the source `t` holds at `meta.export.resolution` as a
/// string: absent when `meta`, `export` or `resolution` is missing, wrong
/// when the value there is not a string.
pub open spec fn is_meta_resolution(f: Field<String>, t: Seq<char>) -> bool {
    match json_value_at(t, "meta"@) {
        None => f is Absent,
        Some(meta) => match json_value_at(meta, "export"@) {
            None => f is Absent,
            Some(ex) => is_text_field(f, ex, "resolution"@),
        },
    }
}

/// Reads the export resolution a render source pins, from its JSON text.
pub fn meta_resolution(text: &str) -> (f: Field<String>)
    ensures
        is_meta_resolution(f, text@),
{
    let meta = match json_value_field(text, "meta") {
        Some(m) => m,
        None => return Field::Absent,
    };
    let ex = match json_value_field(meta.as_str(), "export") {
        Some(e) => e,
        None => return Field::Absent,
    };
    text_field(ex.as_str(), "resolution")
}

fn number_field(t: &str, k: &str) -> (f: Field<u64>)
    ensures
        is_number_field(f, t@, k@),
{
    match json_value_field(t, k) {
        None => Field::Absent,
        Some(_) => match json_u64_field(t, k) {
            Some(v) => Field::Val(v),
            None => Field::Wrong,
        },
    }
}

fn clip_of(t: &str) -> (c: ClipFields)
    ensures
        is_clip_of(c, t@),
{
    ClipFields {
        id: json_string_field(t, "id"),
        begin_ms: number_field(t, "begin_ms"),
        begin: number_field(t, "begin"),
        end_ms: number_field(t, "end_ms"),
        end: number_field(t, "end"),
    }
}

fn track_of(t: &str) -> (tr: TrackFields)
    ensures
        is_track_of(tr, t@),
{
    let clips = match json_value_field(t, "clips") {
        None => Field::Absent,
        Some(ct) => match json_array_items(ct.as_str()) {
            None => Field::Wrong,
            Some(items) => {
                let mut cs: Vec<ClipFields> = Vec::new();
                let mut i: usize = 0;
                while i < items.len()
                    invariant
                        i <= items.len(),
                        cs.len() == i,
                        forall|k: int| 0 <= k < i ==> is_clip_of(#[trigger] cs@[k], items@[k]@),
                    decreases items.len() - i,
                {
                    cs.push(clip_of(items[i].as_str()));
                    i = i + 1;
                }
                Field::Val(cs)
            },
        },
    };
    TrackFields { id: json_string_field(t, "id"), kind: text_field(t, "kind"), clips }
}

fn theme_string(theme: &Option<String>, nested: bool, k: &str) -> (o: Option<String>)
    ensures
        is_theme_text(o, opt_view(*theme), nested, k@),
{
    match theme {
        None => None,
        Some(th) => if nested {
            match json_value_field(th.as_str(), "colors") {
                None => None,
                Some(c) => json_string_field(c.as_str(), k),
            }
        } else {
            json_string_field(th.as_str(), k)
        },
    }
}

/// What validation reads of a render source given as JSON text; the
/// `source JSON: ` error when the text does not parse.
pub fn render_source_from_text(text: &str) -> (r: Result<RenderSource, String>)
    ensures
        match json_parse_problem(text@) {
            Some(e) => r matches Err(m) && m@ == "source JSON: "@ + e,
            None => r matches Ok(src) && is_render_source_of(src, text@),
        },
{
    if let Some(e) = json_parse_failure(text) {
        let mut m = lit("source JSON: ");
        m.append(e.as_str());
        return Err(m);
    }
    let is_object = match json_kind(text) {
        Some(JsonKind::Object) => true,
        _ => false,
    };
    let viewport = match json_value_field(text, "viewport") {
        None => Field::Absent,
        Some(vt) => match json_kind(vt.as_str()) {
            Some(JsonKind::Object) => Field::Val(
                ViewportFields { w: number_field(vt.as_str(), "w"), h: number_field(vt.as_str(), "h") },
            ),
            _ => Field::Wrong,
        },
    };
    let tracks = match json_value_field(text, "tracks") {
        None => Field::Absent,
        Some(tt) => match json_array_items(tt.as_str()) {
            None => Field::Wrong,
            Some(items) => {
                let mut ts: Vec<TrackFields> = Vec::new();
                let mut i: usize = 0;
                while i < items.len()
                    invariant
                        i <= items.len(),
                        ts.len() == i,
                        forall|k: int| 0 <= k < i ==> is_track_of(#[trigger] ts@[k], items@[k]@),
                    decreases items.len() - i,
                {
                    ts.push(track_of(items[i].as_str()));
                    i = i + 1;
                }
                Field::Val(ts)
            },
        },
    };
    let components = match json_value_field(text, "components") {
        None => None,
        Some(ct) => json_object_len(ct.as_str()),
    };
    let theme = json_value_field(text, "theme");
    let th = ThemeFields {
        background: theme_string(&theme, false, "background"),
        bg: theme_string(&theme, false, "bg"),
        colors_background: theme_string(&theme, true, "background"),
        colors_bg: theme_string(&theme, true, "bg"),
        css: theme_string(&theme, false, "css"),
    };
    Ok(RenderSource {
        is_object,
        schema_version: text_field(text, "schema_version"),
        duration_ms: number_field(text, "duration_ms"),
        viewport,
        tracks,
        components,
        theme: th,
    })
}

/// Validates a render source given as JSON text: the `source JSON: ` error
/// when it does not parse, otherwise what `validate_render_source` says of
/// what it holds. (A document with more clips than a `usize` counts cannot
/// be held in memory; it is refused all the same.)
pub fn validate_render_source_text(text: &str) -> (r: Result<RenderSourceSummary, String>)
    ensures
        json_parse_problem(text@) matches Some(e) ==> (r matches Err(m) && m@ == "source JSON: "@ + e),
        json_parse_problem(text@) is None ==> exists|src: RenderSource| {
            &&& #[trigger] is_render_source_of(src, text@)
            &&& clip_total(tracks_of(src)) <= usize::MAX ==> match spec_validate(src) {
                Err(e) => r matches Err(m) && m@ == e,
                Ok(t) => r matches Ok(s) && summary_matches(s, src, t),
            }
        },
{
    let src = render_source_from_text(text)?;
    let total = clip_count(&src);
    match total {
        Some(_) => validate_render_source(&src),
        None => Err(lit("render source has more clips than can be counted")),
    }
}

fn clip_count(src: &RenderSource) -> (r: Option<usize>)
    ensures
        r is Some <==> clip_total(tracks_of(*src)) <= usize::MAX,
{
    match &src.tracks {
        Field::Val(ts) => {
            let mut total: usize = 0;
            let mut i: usize = 0;
            while i < ts.len()
                invariant
                    i <= ts.len(),
                    tracks_of(*src) == ts@,
                    total == clip_total(ts@.take(i as int)),
                decreases ts.len() - i,
            {
                proof {
                    assert(ts@.take(i + 1).drop_last() =~= ts@.take(i as int));
                }
                let n: usize = match &ts[i].clips {
                    Field::Val(cs) => cs.len(),
                    _ => 0,
                };
                match total.checked_add(n) {
                    Some(t) => total = t,
                    None => {
                        proof {
                            assert(clip_total(ts@.take(i + 1)) == total + n);
                            lemma_clip_total_grows(ts@, i as int + 1, ts@.len() as int);
                            assert(ts@.take(ts@.len() as int) =~= ts@);
                        }
                        return None;
                    },
                }
                i = i + 1;
            }
            proof {
                assert(ts@.take(ts@.len() as int) =~= ts@);
            }
            Some(total)
        },
        _ => Some(0),
    }
}

proof fn lemma_clip_total_grows(ts: Seq<TrackFields>, i: int, k: int)
    requires
        0 <= i <= k <= ts.len(),
    ensures
        clip_total(ts.take(i)) <= clip_total(ts.take(k)),
    decreases k - i,
{
    if i < k {
        lemma_clip_total_grows(ts, i, k - 1);
        assert(ts.take(k).drop_last() =~= ts.take(k - 1));
    }
}

} // verus!
