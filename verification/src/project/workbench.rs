//! The project workbench: one card per product (image, poster, PPT, every
//! video, web page) and the export center, from the artifact registry.

use vstd::prelude::*;
use crate::text::decimal_string;
use crate::mp4::verdict::lit;
use crate::project::json::{json_string_at, json_string_field, json_u64_at, json_u64_field, json_value_at, json_value_field};
use crate::project::model::{opt_text, ArtifactKind, ArtifactRefV1, DesignLanguageSummaryV1};
use crate::text::texts;
use crate::project::proposal::same_text;
use crate::project::queue::{copy_text, copy_texts};
use crate::text::{chars_of, decimal, trim, trim_chars};

verus! {

/// What a workbench card previews. A video's import record is carried as
/// JSON text in `metadata`.
#[derive(Debug, Clone)]
pub struct WorkbenchPreviewV1 {
    pub kind: String,
    pub source_path: Option<String>,
    pub poster_frame_path: Option<String>,
    pub composition_path: Option<String>,
    pub metadata: Option<String>,
    pub text: Option<String>,
}

/// One product card of the project workbench.
#[derive(Debug, Clone)]
pub struct ProjectWorkbenchCardV1 {
    pub id: String,
    pub kind: String,
    pub title: String,
    pub status: String,
    pub source_path: Option<String>,
    pub source_refs: Vec<String>,
    pub output_refs: Vec<String>,
    pub design_language_refs: Vec<String>,
    pub evidence_refs: Vec<String>,
    pub preview: WorkbenchPreviewV1,
    pub next_actions: Vec<String>,
    pub updated_at: u64,
}

/// The workbench of a project.
pub struct ProjectWorkbenchV1 {
    pub schema_version: String,
    pub project_id: String,
    pub project_name: String,
    pub design_language_summary: DesignLanguageSummaryV1,
    pub cards: Vec<ProjectWorkbenchCardV1>,
    pub generated_at: u64,
}

/// `c` is the card of a product the project has no artifact of yet.
pub open spec fn is_missing_card(c: ProjectWorkbenchCardV1, kind: Seq<char>, title: Seq<char>) -> bool {
    &&& c.id@ == "missing_"@ + kind
    &&& c.kind@ == kind
    &&& c.title@ == title
    &&& c.status@ == "missing"@
    &&& c.source_path is None
    &&& c.source_refs@.len() == 0
    &&& c.output_refs@.len() == 0
    &&& c.design_language_refs@.len() == 0
    &&& c.evidence_refs@.len() == 0
    &&& c.preview.kind@ == "none"@
    &&& c.preview.source_path is None
    &&& c.preview.poster_frame_path is None
    &&& c.preview.composition_path is None
    &&& c.preview.metadata is None
    &&& opt_text(c.preview.text) == Some("等待项目源文件"@)
    &&& texts(c.next_actions@) == seq!["register-artifact"@]
    &&& c.updated_at == 0
}

/// The card shown for a product the project has no artifact of yet.
pub fn missing_card(kind: &str, title: &str) -> (c: ProjectWorkbenchCardV1)
    ensures
        is_missing_card(c, kind@, title@),
{
    let mut id = lit("missing_");
    id.append(kind);
    let mut next_actions: Vec<String> = Vec::new();
    next_actions.push(lit("register-artifact"));
    proof {
        assert(texts(next_actions@) =~= seq!["register-artifact"@]);
    }
    ProjectWorkbenchCardV1 {
        id,
        kind: lit(kind),
        title: lit(title),
        status: lit("missing"),
        source_path: None,
        source_refs: Vec::new(),
        output_refs: Vec::new(),
        design_language_refs: Vec::new(),
        evidence_refs: Vec::new(),
        preview: WorkbenchPreviewV1 {
            kind: lit("none"),
            source_path: None,
            poster_frame_path: None,
            composition_path: None,
            metadata: None,
            text: Some(lit("等待项目源文件")),
        },
        next_actions,
        updated_at: 0,
    }
}

/// The product an artifact kind makes.
pub open spec fn spec_product_kind(k: ArtifactKind) -> Seq<char> {
    match k {
        ArtifactKind::Html => "web"@,
        ArtifactKind::Image => "image"@,
        ArtifactKind::PosterJson => "poster"@,
        ArtifactKind::PptJson => "ppt"@,
        ArtifactKind::CompositionJson | ArtifactKind::Video => "video"@,
        _ => "other"@,
    }
}

/// The product an artifact kind makes.
pub fn product_kind(k: &ArtifactKind) -> (s: &'static str)
    ensures
        s@ == spec_product_kind(*k),
{
    match k {
        ArtifactKind::Html => "web",
        ArtifactKind::Image => "image",
        ArtifactKind::PosterJson => "poster",
        ArtifactKind::PptJson => "ppt",
        ArtifactKind::CompositionJson | ArtifactKind::Video => "video",
        _ => "other",
    }
}

/// How an artifact kind is previewed.
pub open spec fn spec_preview_kind(k: ArtifactKind) -> Seq<char> {
    match k {
        ArtifactKind::Html => "html"@,
        ArtifactKind::Image => "image"@,
        ArtifactKind::Video => "video"@,
        ArtifactKind::Markdown => "text"@,
        ArtifactKind::PosterJson | ArtifactKind::PptJson | ArtifactKind::CompositionJson => "json"@,
        _ => "none"@,
    }
}

/// How an artifact kind is previewed.
pub fn preview_kind(k: &ArtifactKind) -> (s: &'static str)
    ensures
        s@ == spec_preview_kind(*k),
{
    match k {
        ArtifactKind::Html => "html",
        ArtifactKind::Image => "image",
        ArtifactKind::Video => "video",
        ArtifactKind::Markdown => "text",
        ArtifactKind::PosterJson | ArtifactKind::PptJson | ArtifactKind::CompositionJson => "json",
        _ => "none",
    }
}

/// The video import record of an artifact's provenance, as JSON text.
pub open spec fn video_import_of(a: ArtifactRefV1) -> Option<Seq<char>> {
    match opt_text(a.provenance) {
        Some(p) => json_value_at(p, "video_import"@),
        None => None,
    }
}

/// The video import record of an artifact's provenance, as JSON text.
pub fn artifact_video_import(a: &ArtifactRefV1) -> (r: Option<String>)
    ensures
        opt_text(r) == video_import_of(*a),
{
    match &a.provenance {
        Some(p) => json_value_field(p.as_str(), "video_import"),
        None => None,
    }
}

/// The length recorded in an artifact's video import record.
pub fn artifact_video_duration_ms(a: &ArtifactRefV1) -> (r: Option<u64>)
    ensures
        r == match video_import_of(*a) {
            Some(v) => json_u64_at(v, "duration_ms"@),
            None => None,
        },
{
    match artifact_video_import(a) {
        Some(v) => json_u64_field(v.as_str(), "duration_ms"),
        None => None,
    }
}

/// The preview line of a video: file name, printed length, frame size,
/// with a stand-in for each that the record lacks.
pub open spec fn spec_video_preview_text(video: Seq<char>, duration_text: Option<Seq<char>>) -> Seq<char> {
    let filename = match json_string_at(video, "filename"@) {
        Some(f) => f,
        None => "video"@,
    };
    let duration = match duration_text {
        Some(d) => d,
        None => "duration unknown"@,
    };
    let size = match (json_u64_at(video, "width"@), json_u64_at(video, "height"@)) {
        (Some(w), Some(h)) => decimal(w as nat) + "x"@ + decimal(h as nat),
        _ => "size unknown"@,
    };
    filename + " · "@ + duration + " · "@ + size
}

/// The preview line of a video import record. `duration_text` is its
/// length as the workbench prints it (seconds with two decimals), when the
/// record has one.
pub fn video_preview_text(video: &str, duration_text: Option<&str>) -> (s: String)
    ensures
        s@ == spec_video_preview_text(video@, match duration_text {
            Some(d) => Some(d@),
            None => None,
        }),
{
    let mut s = match json_string_field(video, "filename") {
        Some(f) => f,
        None => lit("video"),
    };
    s.append(" · ");
    match duration_text {
        Some(d) => s.append(d),
        None => s.append("duration unknown"),
    }
    s.append(" · ");
    match (json_u64_field(video, "width"), json_u64_field(video, "height")) {
        (Some(w), Some(h)) => {
            let ws = decimal_string(w);
            let hs = decimal_string(h);
            s.append(ws.as_str());
            s.append("x");
            s.append(hs.as_str());
        },
        _ => s.append("size unknown"),
    }
    s
}

/// `p` previews artifact `a`, whose video (if any) is printed as
/// `duration_text` long.
pub open spec fn is_preview(p: WorkbenchPreviewV1, a: ArtifactRefV1, duration_text: Option<Seq<char>>) -> bool {
    let video = video_import_of(a);
    &&& p.kind@ == spec_preview_kind(a.kind)
    &&& opt_text(p.source_path) == Some(a.source_path@)
    &&& opt_text(p.poster_frame_path) == match video {
        Some(v) => json_string_at(v, "poster_frame_path"@),
        None => None,
    }
    &&& opt_text(p.composition_path) == match video {
        Some(v) => json_string_at(v, "composition_path"@),
        None => None,
    }
    &&& opt_text(p.metadata) == video
    &&& opt_text(p.text) == match video {
        Some(v) => Some(spec_video_preview_text(v, duration_text)),
        None => None,
    }
}

/// The preview of an artifact's card. `duration_text` is the printed length
/// of its video, when it has one.
pub fn preview_for(a: &ArtifactRefV1, duration_text: Option<&str>) -> (p: WorkbenchPreviewV1)
    ensures
        is_preview(p, *a, match duration_text {
            Some(d) => Some(d@),
            None => None,
        }),
{
    let video = artifact_video_import(a);
    let (poster, composition, text) = match &video {
        Some(v) => (
            json_string_field(v.as_str(), "poster_frame_path"),
            json_string_field(v.as_str(), "composition_path"),
            Some(video_preview_text(v.as_str(), duration_text)),
        ),
        None => (None, None, None),
    };
    WorkbenchPreviewV1 {
        kind: lit(preview_kind(&a.kind)),
        source_path: Some(copy_text(&a.source_path)),
        poster_frame_path: poster,
        composition_path: composition,
        metadata: video,
        text,
    }
}

/// `c` is the card of artifact `a` as product `kind` (shown as `title` when
/// the artifact has none).
pub open spec fn is_artifact_card(
    c: ProjectWorkbenchCardV1,
    kind: Seq<char>,
    title: Seq<char>,
    a: ArtifactRefV1,
    duration_text: Option<Seq<char>>,
) -> bool {
    &&& c.id@ == a.id@
    &&& c.kind@ == kind
    &&& c.title@ == (if trim(a.title@).len() == 0 {
        title
    } else {
        a.title@
    })
    &&& c.status@ == (if a.evidence_refs@.len() == 0 {
        "ready"@
    } else {
        "generated"@
    })
    &&& opt_text(c.source_path) == Some(a.source_path@)
    &&& texts(c.source_refs@) == texts(a.source_refs@)
    &&& texts(c.output_refs@) == texts(a.output_refs@)
    &&& texts(c.design_language_refs@) == texts(a.design_language_refs@)
    &&& texts(c.evidence_refs@) == texts(a.evidence_refs@)
    &&& is_preview(c.preview, a, duration_text)
    &&& texts(c.next_actions@) == seq!["select"@, "generate"@, "open-editor"@]
    &&& c.updated_at == a.updated_at
}

pub open spec fn opt_str(o: Option<&str>) -> Option<Seq<char>> {
    match o {
        Some(d) => Some(d@),
        None => None,
    }
}

/// The card of an artifact.
pub fn artifact_card(kind: &str, title: &str, a: &ArtifactRefV1, duration_text: Option<&str>) -> (c: ProjectWorkbenchCardV1)
    ensures
        is_artifact_card(c, kind@, title@, *a, opt_str(duration_text)),
{
    let tc = chars_of(a.title.as_str());
    let tt = trim_chars(tc.as_slice());
    let shown = if tt.len() == 0 {
        lit(title)
    } else {
        copy_text(&a.title)
    };
    let status = if a.evidence_refs.len() == 0 {
        lit("ready")
    } else {
        lit("generated")
    };
    let mut next_actions: Vec<String> = Vec::new();
    next_actions.push(lit("select"));
    next_actions.push(lit("generate"));
    next_actions.push(lit("open-editor"));
    proof {
        assert(texts(next_actions@) =~= seq!["select"@, "generate"@, "open-editor"@]);
    }
    ProjectWorkbenchCardV1 {
        id: copy_text(&a.id),
        kind: lit(kind),
        title: shown,
        status,
        source_path: Some(copy_text(&a.source_path)),
        source_refs: copy_texts(a.source_refs.as_slice()),
        output_refs: copy_texts(a.output_refs.as_slice()),
        design_language_refs: copy_texts(a.design_language_refs.as_slice()),
        evidence_refs: copy_texts(a.evidence_refs.as_slice()),
        preview: preview_for(a, duration_text),
        next_actions,
        updated_at: a.updated_at,
    }
}

/// The output refs of all artifacts, in order.
pub open spec fn all_output_refs(v: Seq<ArtifactRefV1>) -> Seq<Seq<char>>
    decreases v.len(),
{
    if v.len() == 0 {
        seq![]
    } else {
        all_output_refs(v.drop_last()) + texts(v.last().output_refs@)
    }
}

/// The evidence refs of all artifacts, in order.
pub open spec fn all_evidence_refs(v: Seq<ArtifactRefV1>) -> Seq<Seq<char>>
    decreases v.len(),
{
    if v.len() == 0 {
        seq![]
    } else {
        all_evidence_refs(v.drop_last()) + texts(v.last().evidence_refs@)
    }
}

/// The latest update among the artifacts (0 when there are none).
pub open spec fn latest_update(v: Seq<ArtifactRefV1>) -> u64
    decreases v.len(),
{
    if v.len() == 0 {
        0
    } else {
        let m = latest_update(v.drop_last());
        if v.last().updated_at > m {
            v.last().updated_at
        } else {
            m
        }
    }
}

/// `c` is the export center card of the artifacts.
pub open spec fn is_export_center_card(c: ProjectWorkbenchCardV1, v: Seq<ArtifactRefV1>) -> bool {
    &&& c.id@ == "export_center"@
    &&& c.kind@ == "export_center"@
    &&& c.title@ == "导出中心"@
    &&& c.status@ == (if all_output_refs(v).len() == 0 && all_evidence_refs(v).len() == 0 {
        "waiting"@
    } else {
        "ready"@
    })
    &&& c.source_path is None
    &&& c.source_refs@.len() == 0
    &&& texts(c.output_refs@) == all_output_refs(v)
    &&& c.design_language_refs@.len() == 0
    &&& texts(c.evidence_refs@) == all_evidence_refs(v)
    &&& c.preview.kind@ == "summary"@
    &&& c.preview.source_path is None
    &&& c.preview.poster_frame_path is None
    &&& c.preview.composition_path is None
    &&& c.preview.metadata is None
    &&& opt_text(c.preview.text) == Some("汇总导出文件、manifest 和 evidence"@)
    &&& texts(c.next_actions@) == seq!["review-evidence"@]
    &&& c.updated_at == latest_update(v)
}

fn append_texts(out: &mut Vec<String>, v: &[String])
    ensures
        texts(final(out)@) == texts(old(out)@) + texts(v@),
{
    let mut i: usize = 0;
    while i < v.len()
        invariant
            i <= v.len(),
            texts(out@) == texts(old(out)@) + texts(v@.take(i as int)),
        decreases v.len() - i,
    {
        let ghost prev = out@;
        out.push(copy_text(&v[i]));
        proof {
            assert(texts(v@.take(i + 1)) =~= texts(v@.take(i as int)).push(v@[i as int]@));
            assert(texts(out@) =~= texts(prev).push(v@[i as int]@));
            assert(texts(out@) =~= texts(old(out)@) + texts(v@.take(i + 1)));
        }
        i = i + 1;
    }
    proof {
        assert(v@.take(v.len() as int) =~= v@);
    }
}

/// The export center card: every artifact's outputs and evidence.
pub fn export_center_card(artifacts: &[ArtifactRefV1]) -> (c: ProjectWorkbenchCardV1)
    ensures
        is_export_center_card(c, artifacts@),
{
    let mut output_refs: Vec<String> = Vec::new();
    let mut evidence_refs: Vec<String> = Vec::new();
    let mut latest: u64 = 0;
    let mut i: usize = 0;
    while i < artifacts.len()
        invariant
            i <= artifacts.len(),
            texts(output_refs@) == all_output_refs(artifacts@.take(i as int)),
            texts(evidence_refs@) == all_evidence_refs(artifacts@.take(i as int)),
            latest == latest_update(artifacts@.take(i as int)),
        decreases artifacts.len() - i,
    {
        proof {
            assert(artifacts@.take(i + 1).drop_last() =~= artifacts@.take(i as int));
        }
        append_texts(&mut output_refs, artifacts[i].output_refs.as_slice());
        append_texts(&mut evidence_refs, artifacts[i].evidence_refs.as_slice());
        if artifacts[i].updated_at > latest {
            latest = artifacts[i].updated_at;
        }
        i = i + 1;
    }
    proof {
        assert(artifacts@.take(artifacts.len() as int) =~= artifacts@);
    }
    let status = if output_refs.len() == 0 && evidence_refs.len() == 0 {
        lit("waiting")
    } else {
        lit("ready")
    };
    let mut next_actions: Vec<String> = Vec::new();
    next_actions.push(lit("review-evidence"));
    proof {
        assert(texts(next_actions@) =~= seq!["review-evidence"@]);
    }
    ProjectWorkbenchCardV1 {
        id: lit("export_center"),
        kind: lit("export_center"),
        title: lit("导出中心"),
        status,
        source_path: None,
        source_refs: Vec::new(),
        output_refs,
        design_language_refs: Vec::new(),
        evidence_refs,
        preview: WorkbenchPreviewV1 {
            kind: lit("summary"),
            source_path: None,
            poster_frame_path: None,
            composition_path: None,
            metadata: None,
            text: Some(lit("汇总导出文件、manifest 和 evidence")),
        },
        next_actions,
        updated_at: latest,
    }
}

/// The first of the first `n` artifacts that makes product `kind`.
pub open spec fn first_product(v: Seq<ArtifactRefV1>, kind: Seq<char>, n: int) -> Option<int>
    decreases n,
{
    if n <= 0 {
        None
    } else {
        match first_product(v, kind, n - 1) {
            Some(i) => Some(i),
            None => if spec_product_kind(v[n - 1].kind) == kind {
                Some(n - 1)
            } else {
                None
            },
        }
    }
}

/// The positions of the first `n` artifacts that make videos, in order.
pub open spec fn video_positions(v: Seq<ArtifactRefV1>, n: int) -> Seq<int>
    decreases n,
{
    if n <= 0 {
        seq![]
    } else if spec_product_kind(v[n - 1].kind) == "video"@ {
        video_positions(v, n - 1).push(n - 1)
    } else {
        video_positions(v, n - 1)
    }
}

pub open spec fn duration_at(d: Seq<Option<String>>, i: int) -> Option<Seq<char>> {
    opt_text(d[i])
}

/// `c` is the card of product `kind`: its first artifact's, or the missing
/// card.
pub open spec fn is_single_card(
    c: ProjectWorkbenchCardV1,
    kind: Seq<char>,
    title: Seq<char>,
    v: Seq<ArtifactRefV1>,
    d: Seq<Option<String>>,
) -> bool {
    match first_product(v, kind, v.len() as int) {
        Some(i) => is_artifact_card(c, kind, title, v[i], duration_at(d, i)),
        None => is_missing_card(c, kind, title),
    }
}

/// `cards` are the video cards: one per video artifact, in order, or the
/// missing card when there is none.
pub open spec fn are_video_cards(cards: Seq<ProjectWorkbenchCardV1>, title: Seq<char>, v: Seq<ArtifactRefV1>, d: Seq<Option<String>>) -> bool {
    let vp = video_positions(v, v.len() as int);
    if vp.len() == 0 {
        cards.len() == 1 && is_missing_card(cards[0], "video"@, title)
    } else {
        &&& cards.len() == vp.len()
        &&& forall|m: int| 0 <= m < vp.len() ==> is_artifact_card(#[trigger] cards[m], "video"@, title, v[vp[m]], duration_at(d, vp[m]))
    }
}

proof fn lemma_first_product_stable(v: Seq<ArtifactRefV1>, kind: Seq<char>, m: int, n: int)
    requires
        0 <= m <= n,
        first_product(v, kind, m) is Some,
    ensures
        first_product(v, kind, n) == first_product(v, kind, m),
    decreases n - m,
{
    if n > m {
        lemma_first_product_stable(v, kind, m, n - 1);
    }
}

fn duration_ref(d: &Option<String>) -> (r: Option<&str>)
    ensures
        opt_str(r) == opt_text(*d),
{
    match d {
        Some(s) => Some(s.as_str()),
        None => None,
    }
}

/// The card of product `kind`: its first artifact's, or the missing card.
/// `durations[i]` is the printed length of artifact `i`'s video, if any.
pub fn single_card(kind: &str, title: &str, artifacts: &[ArtifactRefV1], durations: &[Option<String>]) -> (c: ProjectWorkbenchCardV1)
    requires
        durations.len() == artifacts.len(),
    ensures
        is_single_card(c, kind@, title@, artifacts@, durations@),
{
    let mut i: usize = 0;
    while i < artifacts.len()
        invariant
            i <= artifacts.len(),
            durations.len() == artifacts.len(),
            first_product(artifacts@, kind@, i as int) is None,
        decreases artifacts.len() - i,
    {
        let p = product_kind(&artifacts[i].kind);
        if same_text(p, kind) {
            proof {
                assert(first_product(artifacts@, kind@, i + 1) == Some(i as int));
                lemma_first_product_stable(artifacts@, kind@, i + 1, artifacts@.len() as int);
            }
            return artifact_card(kind, title, &artifacts[i], duration_ref(&durations[i]));
        }
        i = i + 1;
    }
    missing_card(kind, title)
}

/// The video cards: one per video artifact, in order, or the missing card.
pub fn video_cards(title: &str, artifacts: &[ArtifactRefV1], durations: &[Option<String>]) -> (r: Vec<ProjectWorkbenchCardV1>)
    requires
        durations.len() == artifacts.len(),
    ensures
        are_video_cards(r@, title@, artifacts@, durations@),
{
    let mut r: Vec<ProjectWorkbenchCardV1> = Vec::new();
    let mut i: usize = 0;
    proof {
        reveal_strlit("video");
    }
    while i < artifacts.len()
        invariant
            i <= artifacts.len(),
            durations.len() == artifacts.len(),
            r.len() == video_positions(artifacts@, i as int).len(),
            forall|m: int|
                0 <= m < r.len() ==> is_artifact_card(
                    #[trigger] r@[m],
                    "video"@,
                    title@,
                    artifacts@[video_positions(artifacts@, i as int)[m]],
                    duration_at(durations@, video_positions(artifacts@, i as int)[m]),
                ),
        decreases artifacts.len() - i,
    {
        let p = product_kind(&artifacts[i].kind);
        if same_text(p, "video") {
            let c = artifact_card("video", title, &artifacts[i], duration_ref(&durations[i]));
            let ghost prev = r@;
            r.push(c);
            proof {
                assert forall|m: int| 0 <= m < r.len() implies is_artifact_card(
                    #[trigger] r@[m],
                    "video"@,
                    title@,
                    artifacts@[video_positions(artifacts@, i + 1)[m]],
                    duration_at(durations@, video_positions(artifacts@, i + 1)[m]),
                ) by {
                    if m < prev.len() {
                        assert(r@[m] == prev[m]);
                    }
                }
            }
        }
        i = i + 1;
    }
    if r.len() == 0 {
        r.push(missing_card("video", title));
    }
    r
}

fn append_cards(out: &mut Vec<ProjectWorkbenchCardV1>, more: Vec<ProjectWorkbenchCardV1>)
    ensures
        final(out)@ == old(out)@ + more@,
{
    let mut more = more;
    out.append(&mut more);
}

/// The workbench of a project: the image, poster and PPT cards, the video
/// cards, the web card, then the export center. `durations[i]` is the
/// printed length of artifact `i`'s video, if any.
pub fn workbench(
    project_id: &str,
    project_name: &str,
    design_language_summary: DesignLanguageSummaryV1,
    artifacts: &[ArtifactRefV1],
    durations: &[Option<String>],
    generated_at: u64,
) -> (w: ProjectWorkbenchV1)
    requires
        durations.len() == artifacts.len(),
    ensures
        w.schema_version@ == "capy.project-workbench.v1"@,
        w.project_id@ == project_id@,
        w.project_name@ == project_name@,
        w.design_language_summary == design_language_summary,
        w.generated_at == generated_at,
        ({
            let v = artifacts@;
            let d = durations@;
            let c = w.cards@;
            let nv = c.len() - 5;
            &&& c.len() >= 6
            &&& is_single_card(c[0], "image"@, "图片"@, v, d)
            &&& is_single_card(c[1], "poster"@, "海报"@, v, d)
            &&& is_single_card(c[2], "ppt"@, "PPT"@, v, d)
            &&& are_video_cards(c.subrange(3, 3 + nv), "视频"@, v, d)
            &&& is_single_card(c[3 + nv], "web"@, "网页"@, v, d)
            &&& is_export_center_card(c[4 + nv], v)
        }),
{
    let mut cards: Vec<ProjectWorkbenchCardV1> = Vec::new();
    cards.push(single_card("image", "图片", artifacts, durations));
    cards.push(single_card("poster", "海报", artifacts, durations));
    cards.push(single_card("ppt", "PPT", artifacts, durations));
    let videos = video_cards("视频", artifacts, durations);
    let ghost vc = videos@;
    let ghost first3 = cards@;
    append_cards(&mut cards, videos);
    let ghost nv: int = vc.len() as int;
    cards.push(single_card("web", "网页", artifacts, durations));
    cards.push(export_center_card(artifacts));
    proof {
        assert(vc.len() >= 1);
        assert(cards@.subrange(3, 3 + nv) =~= vc);
        assert(cards@[0] == first3[0]);
        assert(cards@[1] == first3[1]);
        assert(cards@[2] == first3[2]);
    }
    ProjectWorkbenchV1 {
        schema_version: lit("capy.project-workbench.v1"),
        project_id: lit(project_id),
        project_name: lit(project_name),
        design_language_summary,
        cards,
        generated_at,
    }
}

} // verus!
