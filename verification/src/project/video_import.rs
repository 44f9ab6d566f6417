//! Importing a video into the project: where its poster frame and its
//! composition go, the artifact record it gets, and how the registry takes
//! it in (a re-import of the same file updates its record).

use vstd::prelude::*;
use crate::text::decimal_string;
use crate::mp4::verdict::lit;
use crate::project::ids::{safe_path_id, safe_slug_id, spec_safe_path_id, spec_safe_slug_id};
use crate::project::model::{opt_text, ArtifactKind, ArtifactRefV1};
use crate::text::texts;
use crate::project::proposal::same_text;
use crate::text::{chars_of, decimal, trim, trim_chars};

verus! {

/// The first of the first `n` artifacts that is a video imported from
/// `source_path`.
pub open spec fn video_position(v: Seq<ArtifactRefV1>, source_path: Seq<char>, n: int) -> Option<int>
    decreases n,
{
    if n <= 0 {
        None
    } else {
        match video_position(v, source_path, n - 1) {
            Some(i) => Some(i),
            None => if v[n - 1].kind == ArtifactKind::Video && v[n - 1].source_path@ == source_path {
                Some(n - 1)
            } else {
                None
            },
        }
    }
}

proof fn lemma_video_position_stable(v: Seq<ArtifactRefV1>, source_path: Seq<char>, m: int, n: int)
    requires
        0 <= m <= n,
        video_position(v, source_path, m) is Some,
    ensures
        video_position(v, source_path, n) == video_position(v, source_path, m),
    decreases n - m,
{
    if n > m {
        lemma_video_position_stable(v, source_path, m, n - 1);
    }
}

/// The position of the video artifact already imported from `source_path`.
pub fn find_imported_video(artifacts: &[ArtifactRefV1], source_path: &str) -> (r: Option<usize>)
    ensures
        match r {
            Some(i) => video_position(artifacts@, source_path@, artifacts@.len() as int) == Some(i as int) && i
                < artifacts.len(),
            None => video_position(artifacts@, source_path@, artifacts@.len() as int) is None,
        },
{
    let mut i: usize = 0;
    while i < artifacts.len()
        invariant
            i <= artifacts.len(),
            video_position(artifacts@, source_path@, i as int) is None,
        decreases artifacts.len() - i,
    {
        if matches!(artifacts[i].kind, ArtifactKind::Video) && same_text(artifacts[i].source_path.as_str(), source_path) {
            proof {
                assert(video_position(artifacts@, source_path@, i + 1) == Some(i as int));
                lemma_video_position_stable(artifacts@, source_path@, i + 1, artifacts@.len() as int);
            }
            return Some(i);
        }
        i = i + 1;
    }
    None
}

/// Where an imported video's first frame is kept.
pub open spec fn spec_poster_path(artifact_id: Seq<char>) -> Seq<char> {
    ".capy/video-previews/"@ + spec_safe_path_id(artifact_id) + "-first-frame.png"@
}

/// Where an imported video's composition is kept.
pub open spec fn spec_composition_path(artifact_id: Seq<char>) -> Seq<char> {
    ".capy/video-compositions/"@ + spec_safe_path_id(artifact_id) + "/compositions/main.json"@
}

/// The project paths of an imported video's first frame and composition.
pub fn video_import_paths(artifact_id: &str) -> (r: (String, String))
    ensures
        r.0@ == spec_poster_path(artifact_id@),
        r.1@ == spec_composition_path(artifact_id@),
{
    let safe = safe_path_id(artifact_id);
    let mut poster = lit(".capy/video-previews/");
    poster.append(safe.as_str());
    poster.append("-first-frame.png");
    let mut composition = lit(".capy/video-compositions/");
    composition.append(safe.as_str());
    composition.append("/compositions/main.json");
    (poster, composition)
}

/// The title of an imported video: the one given when it is not blank,
/// else the file name.
pub fn imported_title(title: Option<&str>, filename: &str) -> (s: String)
    ensures
        s@ == match title {
            Some(t) if trim(t@).len() > 0 => t@,
            _ => filename@,
        },
{
    if let Some(t) = title {
        let cs = chars_of(t);
        let tt = trim_chars(cs.as_slice());
        if tt.len() > 0 {
            return lit(t);
        }
    }
    lit(filename)
}

/// The id of an imported video's composition.
pub fn composition_id(artifact_id: &str) -> (s: String)
    ensures
        s@ == "project-video-"@ + spec_safe_slug_id(artifact_id@),
{
    let slug = safe_slug_id(artifact_id);
    let mut s = lit("project-video-");
    s.append(slug.as_str());
    s
}

/// The aspect ratio written in a composition's viewport: `<w>:<h>`.
pub fn viewport_ratio(width: u32, height: u32) -> (s: String)
    ensures
        s@ == decimal(width as nat) + ":"@ + decimal(height as nat),
{
    let mut s = decimal_string(width as u64);
    s.append(":");
    let h = decimal_string(height as u64);
    s.append(h.as_str());
    s
}

/// The frame size ffprobe reported: width and height must be present, fit
/// in 32 bits and be positive.
pub fn probed_frame_size(width: Option<u64>, height: Option<u64>) -> (r: Result<(u32, u32), String>)
    ensures
        match (width, height) {
            (Some(w), Some(h)) if 0 < w <= u32::MAX && 0 < h <= u32::MAX => r == Ok::<(u32, u32), String>(
                (w as u32, h as u32),
            ),
            (Some(w), _) if 0 < w <= u32::MAX => r matches Err(m) && m@ == "ffprobe video height missing"@,
            _ => r matches Err(m) && m@ == "ffprobe video width missing"@,
        },
{
    let w = match width {
        Some(w) if 0 < w && w <= 0xffff_ffff => w as u32,
        _ => {
            return Err(lit("ffprobe video width missing"));
        },
    };
    let h = match height {
        Some(h) if 0 < h && h <= 0xffff_ffff => h as u32,
        _ => {
            return Err(lit("ffprobe video height missing"));
        },
    };
    Ok((w, h))
}

/// `a` is the artifact record of a video imported from `source_path` under
/// id `artifact_id`, with the given provenance (its import record as JSON
/// text), stamped `now`.
pub open spec fn is_video_record(
    a: ArtifactRefV1,
    artifact_id: Seq<char>,
    title: Seq<char>,
    source_path: Seq<char>,
    provenance: Seq<char>,
    now: u64,
) -> bool {
    &&& a.id@ == artifact_id
    &&& a.kind == ArtifactKind::Video
    &&& a.title@ == title
    &&& a.source_path@ == source_path
    &&& a.source_refs@.len() == 0
    &&& texts(a.output_refs@) == seq![spec_composition_path(artifact_id)]
    &&& a.design_language_refs@.len() == 0
    &&& a.asset_refs@.len() == 0
    &&& opt_text(a.provenance) == Some(provenance)
    &&& a.evidence_refs@.len() == 0
    &&& a.updated_at == now
}

/// The artifact record of an imported video.
pub fn video_record(artifact_id: &str, title: &str, source_path: &str, provenance: String, now: u64) -> (a: ArtifactRefV1)
    ensures
        is_video_record(a, artifact_id@, title@, source_path@, provenance@, now),
{
    let (_poster, composition) = video_import_paths(artifact_id);
    let mut outputs: Vec<String> = Vec::new();
    outputs.push(composition);
    proof {
        assert(texts(outputs@) =~= seq![spec_composition_path(artifact_id@)]);
    }
    ArtifactRefV1 {
        id: lit(artifact_id),
        kind: ArtifactKind::Video,
        title: lit(title),
        source_path: lit(source_path),
        source_refs: Vec::new(),
        output_refs: outputs,
        design_language_refs: Vec::new(),
        asset_refs: Vec::new(),
        provenance: Some(provenance),
        evidence_refs: Vec::new(),
        updated_at: now,
    }
}

/// Takes an imported video's record into the registry: it replaces the
/// record of the same file's earlier import, or joins the registry at the
/// end. The other records stay as they were.
pub fn register_video(artifacts: &mut Vec<ArtifactRefV1>, record: ArtifactRefV1)
    ensures
        match video_position(old(artifacts)@, record.source_path@, old(artifacts)@.len() as int) {
            Some(i) => final(artifacts)@ == old(artifacts)@.update(i, record),
            None => final(artifacts)@ == old(artifacts)@.push(record),
        },
{
    match find_imported_video(artifacts.as_slice(), record.source_path.as_str()) {
        Some(i) => {
            let _previous = artifacts.remove(i);
            artifacts.insert(i, record);
            proof {
                assert(artifacts@ =~= old(artifacts)@.update(i as int, record));
            }
        },
        None => {
            artifacts.push(record);
        },
    }
}

} // verus!
