//! Ids, slugs and URLs derived from names and paths, and small text
//! clean-ups of the project package.

use vstd::prelude::*;
use vstd::utf8::encode_utf8;
use crate::mp4::verdict::lit;
use crate::project::model::ArtifactKind;
use crate::render_source::{starts_with, starts_with_chars};
use crate::text::{ascii_lower_char, chars_of, is_whitespace, lower_char, string_from_chars, trim, trim_chars, trim_end_at, trim_start_at};

verus! {

pub open spec fn is_ascii_alnum(c: char) -> bool {
    ('0' <= c && c <= '9') || ('a' <= c && c <= 'z') || ('A' <= c && c <= 'Z')
}

pub open spec fn is_ascii_alpha(c: char) -> bool {
    ('a' <= c && c <= 'z') || ('A' <= c && c <= 'Z')
}

pub fn alnum(c: char) -> (r: bool)
    ensures
        r == is_ascii_alnum(c),
{
    ('0' <= c && c <= '9') || ('a' <= c && c <= 'z') || ('A' <= c && c <= 'Z')
}

/// `s` without leading and trailing `-` (`trim_matches('-')`).
pub open spec fn trim_dashes(s: Seq<char>) -> Seq<char>
    decreases s.len(),
{
    if s.len() > 0 && s[0] == '-' {
        trim_dashes(s.drop_first())
    } else if s.len() > 0 && s.last() == '-' {
        trim_dashes(s.drop_last())
    } else {
        s
    }
}

fn trim_dashes_chars(s: &[char]) -> (v: Vec<char>)
    ensures
        v@ == trim_dashes(s@),
{
    let mut a: usize = 0;
    let mut b: usize = s.len();
    proof {
        assert(s@.subrange(0, s@.len() as int) =~= s@);
    }
    while a < b && (s[a] == '-' || s[b - 1] == '-')
        invariant
            a <= b <= s@.len(),
            trim_dashes(s@) == trim_dashes(s@.subrange(a as int, b as int)),
        decreases b - a,
    {
        proof {
            let t = s@.subrange(a as int, b as int);
            if s@[a as int] == '-' {
                assert(t.drop_first() =~= s@.subrange(a + 1, b as int));
            } else {
                assert(t.drop_last() =~= s@.subrange(a as int, b - 1));
            }
        }
        if s[a] == '-' {
            a = a + 1;
        } else {
            b = b - 1;
        }
    }
    let mut v: Vec<char> = Vec::new();
    let mut i: usize = a;
    while i < b
        invariant
            a <= i <= b <= s@.len(),
            v@ == s@.subrange(a as int, i as int),
        decreases b - i,
    {
        v.push(s[i]);
        proof {
            assert(s@.subrange(a as int, i + 1) =~= s@.subrange(a as int, i as int).push(s@[i as int]));
        }
        i = i + 1;
    }
    v
}

/// A character kept in a path id, `-` for any other.
pub open spec fn path_id_char(c: char) -> char {
    if is_ascii_alnum(c) || c == '-' || c == '_' || c == '.' {
        c
    } else {
        '-'
    }
}

/// A file-system-safe id for a name: unsafe characters become `-`, outer
/// dashes are dropped, `video` when nothing is left.
pub open spec fn spec_safe_path_id(value: Seq<char>) -> Seq<char> {
    let s = trim_dashes(value.map_values(|c: char| path_id_char(c)));
    if s.len() == 0 {
        "video"@
    } else {
        s
    }
}

/// A file-system-safe id for a name.
pub fn safe_path_id(value: &str) -> (s: String)
    ensures
        s@ == spec_safe_path_id(value@),
{
    let cs = chars_of(value);
    let mut mapped: Vec<char> = Vec::new();
    let mut i: usize = 0;
    while i < cs.len()
        invariant
            i <= cs.len(),
            mapped@ == cs@.take(i as int).map_values(|c: char| path_id_char(c)),
        decreases cs.len() - i,
    {
        let c = cs[i];
        let k = if alnum(c) || c == '-' || c == '_' || c == '.' {
            c
        } else {
            '-'
        };
        mapped.push(k);
        proof {
            assert(cs@.take(i + 1).map_values(|c: char| path_id_char(c)) =~= cs@.take(i as int).map_values(
                |c: char| path_id_char(c),
            ).push(path_id_char(c)));
        }
        i = i + 1;
    }
    proof {
        assert(cs@.take(cs.len() as int) =~= cs@);
    }
    let t = trim_dashes_chars(mapped.as_slice());
    if t.len() == 0 {
        lit("video")
    } else {
        string_from_chars(t.as_slice())
    }
}

/// A character kept (lower-cased) in a slug, `-` for any other.
pub open spec fn slug_char(c: char) -> char {
    let l = ascii_lower_char(c);
    if is_ascii_alnum(l) || l == '-' || l == '.' {
        l
    } else {
        '-'
    }
}

/// A slug for a name: lower-cased, unsafe characters as `-`, outer dashes
/// dropped, `video-` in front unless it starts with a letter, at most 64
/// characters.
pub open spec fn spec_safe_slug_id(value: Seq<char>) -> Seq<char> {
    let s = trim_dashes(value.map_values(|c: char| slug_char(c)));
    let slug = if s.len() > 0 && is_ascii_alpha(s[0]) {
        s
    } else {
        "video-"@ + s
    };
    if slug.len() > 64 {
        slug.take(64)
    } else {
        slug
    }
}

/// A slug for a name.
pub fn safe_slug_id(value: &str) -> (s: String)
    ensures
        s@ == spec_safe_slug_id(value@),
{
    let cs = chars_of(value);
    let mut mapped: Vec<char> = Vec::new();
    let mut i: usize = 0;
    while i < cs.len()
        invariant
            i <= cs.len(),
            mapped@ == cs@.take(i as int).map_values(|c: char| slug_char(c)),
        decreases cs.len() - i,
    {
        let l = lower_char(cs[i]);
        let k = if alnum(l) || l == '-' || l == '.' {
            l
        } else {
            '-'
        };
        mapped.push(k);
        proof {
            assert(cs@.take(i + 1).map_values(|c: char| slug_char(c)) =~= cs@.take(i as int).map_values(
                |c: char| slug_char(c),
            ).push(slug_char(cs@[i as int])));
        }
        i = i + 1;
    }
    proof {
        assert(cs@.take(cs.len() as int) =~= cs@);
    }
    let t = trim_dashes_chars(mapped.as_slice());
    let mut slug: Vec<char> = Vec::new();
    if !(t.len() > 0 && (('a' <= t[0] && t[0] <= 'z') || ('A' <= t[0] && t[0] <= 'Z'))) {
        let p = chars_of("video-");
        let mut j: usize = 0;
        while j < p.len()
            invariant
                j <= p.len(),
                slug@ == p@.take(j as int),
            decreases p.len() - j,
        {
            slug.push(p[j]);
            proof {
                assert(p@.take(j + 1) =~= p@.take(j as int).push(p@[j as int]));
            }
            j = j + 1;
        }
        proof {
            assert(p@.take(p.len() as int) =~= p@);
        }
    }
    let ghost head = slug@;
    let mut k: usize = 0;
    while k < t.len()
        invariant
            k <= t.len(),
            slug@ == head + t@.take(k as int),
        decreases t.len() - k,
    {
        slug.push(t[k]);
        proof {
            assert(t@.take(k + 1) =~= t@.take(k as int).push(t@[k as int]));
            assert(head + t@.take(k + 1) =~= (head + t@.take(k as int)).push(t@[k as int]));
        }
        k = k + 1;
    }
    proof {
        assert(t@.take(t.len() as int) =~= t@);
    }
    if slug.len() > 64 {
        let mut out: Vec<char> = Vec::new();
        let mut q: usize = 0;
        while q < 64
            invariant
                q <= 64,
                slug@.len() > 64,
                out@ == slug@.take(q as int),
            decreases 64 - q,
        {
            out.push(slug[q]);
            proof {
                assert(slug@.take(q + 1) =~= slug@.take(q as int).push(slug@[q as int]));
            }
            q = q + 1;
        }
        string_from_chars(out.as_slice())
    } else {
        string_from_chars(slug.as_slice())
    }
}

/// A character kept in a surface node id, `_` for any other.
pub open spec fn node_id_char(c: char) -> char {
    if is_ascii_alnum(c) || c == '_' || c == '-' {
        c
    } else {
        '_'
    }
}

/// The id of an artifact's node on the canvas: `surf_` and the artifact id
/// with unsafe characters as `_`.
pub fn surface_node_id(artifact_id: &str) -> (s: String)
    ensures
        s@ == "surf_"@ + artifact_id@.map_values(|c: char| node_id_char(c)),
{
    let cs = chars_of(artifact_id);
    let mut mapped: Vec<char> = Vec::new();
    let mut i: usize = 0;
    while i < cs.len()
        invariant
            i <= cs.len(),
            mapped@ == cs@.take(i as int).map_values(|c: char| node_id_char(c)),
        decreases cs.len() - i,
    {
        let c = cs[i];
        let k = if alnum(c) || c == '_' || c == '-' {
            c
        } else {
            '_'
        };
        mapped.push(k);
        proof {
            assert(cs@.take(i + 1).map_values(|c: char| node_id_char(c)) =~= cs@.take(i as int).map_values(
                |c: char| node_id_char(c),
            ).push(node_id_char(c)));
        }
        i = i + 1;
    }
    proof {
        assert(cs@.take(cs.len() as int) =~= cs@);
    }
    let mut s = lit("surf_");
    let m = string_from_chars(mapped.as_slice());
    s.append(m.as_str());
    s
}

// ───────────────────────── file URLs ─────────────────────────

/// Bytes a file URL keeps as they are.
pub open spec fn url_safe(b: u8) -> bool {
    (65 <= b <= 90) || (97 <= b <= 122) || (48 <= b <= 57) || b == 45 || b == 95 || b == 46 || b == 126
        || b == 47
}

/// Upper-case hex digit of `d < 16`.
pub open spec fn upper_hex(d: int) -> char {
    if d < 10 {
        (48 + d) as char
    } else {
        (55 + d) as char
    }
}

/// One byte of a file URL path: itself, or `%XX`.
pub open spec fn url_byte(b: u8) -> Seq<char> {
    if url_safe(b) {
        seq![b as char]
    } else {
        seq!['%', upper_hex((b / 16) as int), upper_hex((b % 16) as int)]
    }
}

/// The percent-encoding of `bytes`.
pub open spec fn url_encode(bytes: Seq<u8>) -> Seq<char>
    decreases bytes.len(),
{
    if bytes.len() == 0 {
        seq![]
    } else {
        url_encode(bytes.drop_last()) + url_byte(bytes.last())
    }
}

fn upper_hex_char(d: u8) -> (c: char)
    requires
        d < 16,
    ensures
        c == upper_hex(d as int),
{
    let b: u8 = if d < 10 {
        48u8 + d
    } else {
        55u8 + d
    };
    b as char
}

/// A `file://` URL for a path given as text: its UTF-8 bytes, unreserved
/// ones as they are and the others as `%XX`.
pub fn file_url(path: &str) -> (s: String)
    ensures
        s@ == "file://"@ + url_encode(encode_utf8(path@)),
{
    let bytes = path.as_bytes();
    let mut enc: Vec<char> = Vec::new();
    let mut i: usize = 0;
    while i < bytes.len()
        invariant
            i <= bytes@.len(),
            enc@ == url_encode(bytes@.take(i as int)),
        decreases bytes.len() - i,
    {
        let b = bytes[i];
        proof {
            assert(bytes@.take(i + 1).drop_last() =~= bytes@.take(i as int));
        }
        let ghost before = enc@;
        if (65 <= b && b <= 90) || (97 <= b && b <= 122) || (48 <= b && b <= 57) || b == 45 || b == 95
            || b == 46 || b == 126 || b == 47 {
            enc.push(b as char);
            proof {
                assert(enc@ =~= before + url_byte(b));
            }
        } else {
            enc.push('%');
            enc.push(upper_hex_char(b / 16));
            enc.push(upper_hex_char(b % 16));
            proof {
                assert(enc@ =~= before + url_byte(b));
            }
        }
        i = i + 1;
    }
    proof {
        assert(bytes@.take(bytes@.len() as int) =~= bytes@);
    }
    let mut s = lit("file://");
    let e = string_from_chars(enc.as_slice());
    s.append(e.as_str());
    s
}

// ───────────────────────── text clean-ups ─────────────────────────

/// The text of `s` outside `<...>` tags, from a scan that starts outside a
/// tag; and whether the scan ends inside one.
pub open spec fn strip_scan(s: Seq<char>) -> (Seq<char>, bool)
    decreases s.len(),
{
    if s.len() == 0 {
        (seq![], false)
    } else {
        let (out, in_tag) = strip_scan(s.drop_last());
        let c = s.last();
        if c == '<' {
            (out, true)
        } else if c == '>' {
            (out, false)
        } else if !in_tag {
            (out.push(c), in_tag)
        } else {
            (out, in_tag)
        }
    }
}

/// The text of an HTML fragment without its tags.
pub fn strip_tags(value: &str) -> (s: String)
    ensures
        s@ == strip_scan(value@).0,
{
    let cs = chars_of(value);
    let mut out: Vec<char> = Vec::new();
    let mut in_tag = false;
    let mut i: usize = 0;
    while i < cs.len()
        invariant
            i <= cs.len(),
            strip_scan(cs@.take(i as int)) == (out@, in_tag),
        decreases cs.len() - i,
    {
        proof {
            assert(cs@.take(i + 1).drop_last() =~= cs@.take(i as int));
        }
        let c = cs[i];
        if c == '<' {
            in_tag = true;
        } else if c == '>' {
            in_tag = false;
        } else if !in_tag {
            out.push(c);
        }
        i = i + 1;
    }
    proof {
        assert(cs@.take(cs.len() as int) =~= cs@);
    }
    string_from_chars(out.as_slice())
}

/// `s` without any number of leading copies of `p`.
pub open spec fn strip_prefix_all(s: Seq<char>, p: Seq<char>) -> Seq<char>
    decreases s.len(),
{
    if p.len() > 0 && starts_with(s, p) {
        strip_prefix_all(s.subrange(p.len() as int, s.len() as int), p)
    } else {
        s
    }
}

/// `s` without any number of trailing copies of `p`.
pub open spec fn strip_suffix_all(s: Seq<char>, p: Seq<char>) -> Seq<char>
    decreases s.len(),
{
    if p.len() > 0 && p.len() <= s.len() && s.subrange(s.len() - p.len(), s.len() as int) == p {
        strip_suffix_all(s.subrange(0, s.len() - p.len()), p)
    } else {
        s
    }
}

pub open spec fn trim_start(s: Seq<char>) -> Seq<char> {
    s.subrange(trim_start_at(s, 0), s.len() as int)
}

pub open spec fn trim_end(s: Seq<char>) -> Seq<char> {
    s.subrange(0, trim_end_at(s, 0, s.len() as int))
}

/// A model reply with an optional Markdown code fence (```` ```json ````)
/// around it, reduced to what the fence holds.
pub open spec fn spec_strip_json_fence(text: Seq<char>) -> Seq<char> {
    let t = trim(text);
    if !starts_with(t, "```"@) {
        t
    } else {
        trim_end(strip_suffix_all(trim_start(strip_prefix_all(strip_prefix_all(t, "```json"@), "```"@)), "```"@))
    }
}

fn strip_prefix_all_chars(s: Vec<char>, p: &str) -> (v: Vec<char>)
    ensures
        v@ == strip_prefix_all(s@, p@),
{
    let pc = chars_of(p);
    let mut cur = s;
    if pc.len() == 0 {
        return cur;
    }
    let mut a: usize = 0;
    proof {
        assert(cur@.subrange(0, cur@.len() as int) =~= cur@);
    }
    while pc.len() <= cur.len() - a && starts_with_chars(&cur.as_slice()[a..cur.len()], p)
        invariant
            pc@ == p@,
            pc@.len() > 0,
            a <= cur@.len(),
            strip_prefix_all(cur@, p@) == strip_prefix_all(cur@.subrange(a as int, cur@.len() as int), p@),
        decreases cur@.len() - a,
    {
        proof {
            let t = cur@.subrange(a as int, cur@.len() as int);
            assert(t.subrange(p@.len() as int, t.len() as int) =~= cur@.subrange(a + p@.len(), cur@.len() as int));
        }
        a = a + pc.len();
    }
    proof {
        let t = cur@.subrange(a as int, cur@.len() as int);
        if a + pc@.len() > cur@.len() {
            assert(!starts_with(t, p@));
        }
    }
    let n = cur.len();
    let out = crate::project::ids::copy_span(cur.as_slice(), a, n);
    out
}

/// The characters of `s` from `a` to `b`.
pub fn copy_span(s: &[char], a: usize, b: usize) -> (v: Vec<char>)
    requires
        a <= b <= s@.len(),
    ensures
        v@ == s@.subrange(a as int, b as int),
{
    let mut v: Vec<char> = Vec::new();
    let mut i: usize = a;
    while i < b
        invariant
            a <= i <= b <= s@.len(),
            v@ == s@.subrange(a as int, i as int),
        decreases b - i,
    {
        v.push(s[i]);
        proof {
            assert(s@.subrange(a as int, i + 1) =~= s@.subrange(a as int, i as int).push(s@[i as int]));
        }
        i = i + 1;
    }
    v
}

fn strip_suffix_all_chars(s: &[char], p: &str) -> (v: Vec<char>)
    ensures
        v@ == strip_suffix_all(s@, p@),
{
    let pc = chars_of(p);
    let n = pc.len();
    if n == 0 {
        return copy_span(s, 0, s.len());
    }
    let mut b: usize = s.len();
    proof {
        assert(s@.subrange(0, s@.len() as int) =~= s@);
    }
    while n <= b && crate::text::chars_eq(&s[b - n..b], pc.as_slice())
        invariant
            pc@ == p@,
            n == p@.len(),
            n > 0,
            b <= s@.len(),
            strip_suffix_all(s@, p@) == strip_suffix_all(s@.subrange(0, b as int), p@),
        decreases b,
    {
        proof {
            let t = s@.subrange(0, b as int);
            assert(t.subrange(t.len() - n, t.len() as int) =~= s@.subrange(b - n, b as int));
            assert(t.subrange(0, t.len() - n) =~= s@.subrange(0, b - n));
        }
        b = b - n;
    }
    proof {
        let t = s@.subrange(0, b as int);
        if n <= b {
            assert(t.subrange(t.len() - n, t.len() as int) =~= s@.subrange(b - n, b as int));
        }
    }
    copy_span(s, 0, b)
}

fn trim_start_chars(s: &[char]) -> (v: Vec<char>)
    ensures
        v@ == trim_start(s@),
{
    let n = s.len();
    let mut a: usize = 0;
    while a < n && is_whitespace(s[a])
        invariant
            a <= n,
            n == s@.len(),
            trim_start_at(s@, 0) == trim_start_at(s@, a as int),
        decreases n - a,
    {
        a = a + 1;
    }
    copy_span(s, a, n)
}

fn trim_end_chars(s: &[char]) -> (v: Vec<char>)
    ensures
        v@ == trim_end(s@),
{
    let n = s.len();
    let mut b: usize = n;
    while b > 0 && is_whitespace(s[b - 1])
        invariant
            b <= n,
            n == s@.len(),
            trim_end_at(s@, 0, n as int) == trim_end_at(s@, 0, b as int),
        decreases b,
    {
        b = b - 1;
    }
    copy_span(s, 0, b)
}

/// Reduces a model reply to the JSON inside an optional code fence.
pub fn strip_json_fence(text: &str) -> (s: String)
    ensures
        s@ == spec_strip_json_fence(text@),
{
    let cs = chars_of(text);
    let t = trim_chars(cs.as_slice());
    if !starts_with_chars(t.as_slice(), "```") {
        return string_from_chars(t.as_slice());
    }
    let a = strip_prefix_all_chars(t, "```json");
    let b = strip_prefix_all_chars(a, "```");
    let c = trim_start_chars(b.as_slice());
    let d = strip_suffix_all_chars(c.as_slice(), "```");
    let e = trim_end_chars(d.as_slice());
    string_from_chars(e.as_slice())
}

/// The trimmed text, or `None` when nothing is left.
pub fn nonempty(value: &str) -> (r: Option<String>)
    ensures
        trim(value@).len() == 0 ==> r is None,
        trim(value@).len() > 0 ==> (r matches Some(s) && s@ == trim(value@)),
{
    let cs = chars_of(value);
    let t = trim_chars(cs.as_slice());
    if t.len() == 0 {
        None
    } else {
        Some(string_from_chars(t.as_slice()))
    }
}

/// The kinds a campaign generates: web pages, posters, decks, compositions.
pub fn is_campaign_kind(kind: &ArtifactKind) -> (r: bool)
    ensures
        r == (*kind == ArtifactKind::Html || *kind == ArtifactKind::PosterJson || *kind
            == ArtifactKind::PptJson || *kind == ArtifactKind::CompositionJson),
{
    match kind {
        ArtifactKind::Html | ArtifactKind::PosterJson | ArtifactKind::PptJson | ArtifactKind::CompositionJson => true,
        _ => false,
    }
}

} // verus!
