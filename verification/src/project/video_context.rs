//! The video side of a context package: the project's source videos as the
//! next AI step sees them, the counts that describe the project, the
//! package's id, and the read-only promises it carries.

use vstd::prelude::*;
use crate::mp4::verdict::lit;
use crate::project::basis::{hashed_id, queue_basis, queue_hash};
use crate::project::hash::{fnv1a64, prefixed_hex};
use crate::project::json::{json_text, json_view, JsonValue, JsonView};
use crate::project::order::strictly_sorted;
use crate::project::proposal::{count_action, count_keys, status_counts};
use crate::project::queue::ProjectVideoClipQueueItemV1;
use crate::text::texts;
use crate::project::json::{json_string_at, json_string_field, json_u64_at, json_u64_field};
use crate::project::model::{ArtifactKind, ArtifactRefV1, DesignLanguageAssetV1, DesignLanguageSummaryV1, ProjectManifestV1};
use crate::project::proposal::ProjectVideoClipProposalConflictV1;
use crate::project::queue::{copy_text, keep_nonblank, nonblank_opt, opt_view};
use crate::project::workbench::{artifact_video_import, video_import_of};

verus! {

/// One source video of the project. (Its frame rate, a float, is added by
/// the caller from the same import record.)
#[derive(Debug, Clone)]
pub struct VideoMediaSource {
    pub artifact_id: String,
    pub title: String,
    pub source_path: String,
    pub filename: Option<String>,
    pub duration_ms: Option<u64>,
    pub width: Option<u64>,
    pub height: Option<u64>,
    pub byte_size: Option<u64>,
    pub poster_frame_path: Option<String>,
    pub composition_path: Option<String>,
}

/// A non-blank string field of a video import record.
pub open spec fn import_text(record: Option<Seq<char>>, key: Seq<char>) -> Option<Seq<char>> {
    match record {
        Some(r) => nonblank_opt(json_string_at(r, key)),
        None => None,
    }
}

/// A whole-number field of a video import record.
pub open spec fn import_number(record: Option<Seq<char>>, key: Seq<char>) -> Option<u64> {
    match record {
        Some(r) => json_u64_at(r, key),
        None => None,
    }
}

/// `m` describes the video artifact `a` from its import record.
pub open spec fn is_media_source_of(m: VideoMediaSource, a: ArtifactRefV1) -> bool {
    let rec = video_import_of(a);
    &&& m.artifact_id@ == a.id@
    &&& m.title@ == a.title@
    &&& m.source_path@ == a.source_path@
    &&& opt_view(m.filename) == import_text(rec, "filename"@)
    &&& m.duration_ms == import_number(rec, "duration_ms"@)
    &&& m.width == import_number(rec, "width"@)
    &&& m.height == import_number(rec, "height"@)
    &&& m.byte_size == import_number(rec, "byte_size"@)
    &&& opt_view(m.poster_frame_path) == import_text(rec, "poster_frame_path"@)
    &&& opt_view(m.composition_path) == import_text(rec, "composition_path"@)
}

fn record_text(record: &Option<String>, key: &str) -> (r: Option<String>)
    ensures
        opt_view(r) == import_text(opt_view(*record), key@),
{
    match record {
        Some(t) => keep_nonblank(json_string_field(t.as_str(), key)),
        None => None,
    }
}

fn record_number(record: &Option<String>, key: &str) -> (r: Option<u64>)
    ensures
        r == import_number(opt_view(*record), key@),
{
    match record {
        Some(t) => json_u64_field(t.as_str(), key),
        None => None,
    }
}

/// A video artifact as a source of the project.
pub fn video_media_source(a: &ArtifactRefV1) -> (m: VideoMediaSource)
    ensures
        is_media_source_of(m, *a),
{
    let rec = artifact_video_import(a);
    proof {
        assert(opt_view(rec) == video_import_of(*a));
    }
    VideoMediaSource {
        artifact_id: copy_text(&a.id),
        title: copy_text(&a.title),
        source_path: copy_text(&a.source_path),
        filename: record_text(&rec, "filename"),
        duration_ms: record_number(&rec, "duration_ms"),
        width: record_number(&rec, "width"),
        height: record_number(&rec, "height"),
        byte_size: record_number(&rec, "byte_size"),
        poster_frame_path: record_text(&rec, "poster_frame_path"),
        composition_path: record_text(&rec, "composition_path"),
    }
}

/// The positions of the video artifacts among the first `n`, in order.
pub open spec fn video_artifact_positions(v: Seq<ArtifactRefV1>, n: int) -> Seq<int>
    decreases n,
{
    if n <= 0 {
        seq![]
    } else if v[n - 1].kind is Video {
        video_artifact_positions(v, n - 1).push(n - 1)
    } else {
        video_artifact_positions(v, n - 1)
    }
}

/// The project's source videos: one entry per video artifact, in registry
/// order.
pub fn video_media_sources(artifacts: &[ArtifactRefV1]) -> (r: Vec<VideoMediaSource>)
    ensures
        r.len() == video_artifact_positions(artifacts@, artifacts.len() as int).len(),
        forall|m: int| 0 <= m < r.len() ==> is_media_source_of(
            #[trigger] r@[m],
            artifacts@[video_artifact_positions(artifacts@, artifacts.len() as int)[m]],
        ),
{
    let mut r: Vec<VideoMediaSource> = Vec::new();
    let mut i: usize = 0;
    while i < artifacts.len()
        invariant
            i <= artifacts.len(),
            r.len() == video_artifact_positions(artifacts@, i as int).len(),
            forall|m: int| 0 <= m < r.len() ==> is_media_source_of(
                #[trigger] r@[m],
                artifacts@[video_artifact_positions(artifacts@, i as int)[m]],
            ),
        decreases artifacts.len() - i,
    {
        if matches!(artifacts[i].kind, ArtifactKind::Video) {
            let m = video_media_source(&artifacts[i]);
            let ghost prev = r@;
            r.push(m);
            proof {
                assert forall|k: int| 0 <= k < r.len() implies is_media_source_of(
                    #[trigger] r@[k],
                    artifacts@[video_artifact_positions(artifacts@, i + 1)[k]],
                ) by {
                    if k < prev.len() {
                        assert(r@[k] == prev[k]);
                    }
                }
            }
        }
        i = i + 1;
    }
    r
}

/// The counts that sum up a video project.
#[derive(Debug, Clone)]
pub struct VideoProjectSummaryV1 {
    pub project_id: String,
    pub project_name: String,
    pub source_media_count: usize,
    pub queue_item_count: usize,
    pub proposal_history_count: usize,
}

/// The summary of a video project, or `None` when the project has no
/// source video, no queued clip and no proposal history, and so no video
/// context at all.
pub fn video_project_summary(
    project: &ProjectManifestV1,
    source_media_count: usize,
    queue_item_count: usize,
    proposal_history_count: usize,
) -> (r: Option<VideoProjectSummaryV1>)
    ensures
        (source_media_count == 0 && queue_item_count == 0 && proposal_history_count == 0) <==> r is None,
        r matches Some(s) ==> {
            &&& s.project_id@ == project.id@
            &&& s.project_name@ == project.name@
            &&& s.source_media_count == source_media_count
            &&& s.queue_item_count == queue_item_count
            &&& s.proposal_history_count == proposal_history_count
        },
{
    if source_media_count == 0 && queue_item_count == 0 && proposal_history_count == 0 {
        return None;
    }
    Some(VideoProjectSummaryV1 {
        project_id: copy_text(&project.id),
        project_name: copy_text(&project.name),
        source_media_count,
        queue_item_count,
        proposal_history_count,
    })
}

/// What a video context package promises its reader.
#[derive(Debug, Clone)]
pub struct VideoProjectContextSafetyV1 {
    pub safe_for_next_ai_input: bool,
    pub no_queue_write: bool,
    pub proposal_history_read_only: bool,
    pub queue_write_policy_zh: String,
    pub safe_next_input_note_zh: String,
    pub red_lines_zh: Vec<String>,
}

/// The policy text: building context never writes the queue.
pub open spec fn queue_write_policy_text() -> Seq<char> {
    "context build 只读取素材、queue、history 和设计约束；不会接受、重写或清空 queue。只有当前 proposal 的显式 accept 且 base_queue_hash 匹配时才允许写 queue。"@
}

/// The note for the next AI step.
pub open spec fn safe_next_input_text() -> Seq<char> {
    "该包可直接作为下一轮 AI 输入：AI 应基于 current_queue_hash 和 proposal history 判断上下文，遇到 conflicted 历史必须重新生成当前 proposal，而不是套用旧 proposal。"@
}

/// The red lines, in order.
pub open spec fn red_line_texts() -> Seq<Seq<char>> {
    seq![
        "不自动接受、重写或清空 clip queue 与 proposal history"@,
        "不通过历史 proposal 绕过 base/current queue hash 冲突检测"@,
        "不扩展为多轨 NLE、字幕、转场、音频混合或导出工作流"@,
    ]
}

/// The promises of every video context package: safe as the next AI
/// input, writes no queue, leaves the history read-only.
pub fn video_context_safety() -> (s: VideoProjectContextSafetyV1)
    ensures
        s.safe_for_next_ai_input,
        s.no_queue_write,
        s.proposal_history_read_only,
        s.queue_write_policy_zh@ == queue_write_policy_text(),
        s.safe_next_input_note_zh@ == safe_next_input_text(),
        s.red_lines_zh@.map_values(|t: String| t@) == red_line_texts(),
{
    let mut red: Vec<String> = Vec::new();
    red.push(lit("不自动接受、重写或清空 clip queue 与 proposal history"));
    red.push(lit("不通过历史 proposal 绕过 base/current queue hash 冲突检测"));
    red.push(lit("不扩展为多轨 NLE、字幕、转场、音频混合或导出工作流"));
    let s = VideoProjectContextSafetyV1 {
        safe_for_next_ai_input: true,
        no_queue_write: true,
        proposal_history_read_only: true,
        queue_write_policy_zh: lit("context build 只读取素材、queue、history 和设计约束；不会接受、重写或清空 queue。只有当前 proposal 的显式 accept 且 base_queue_hash 匹配时才允许写 queue。"),
        safe_next_input_note_zh: lit("该包可直接作为下一轮 AI 输入：AI 应基于 current_queue_hash 和 proposal history 判断上下文，遇到 conflicted 历史必须重新生成当前 proposal，而不是套用旧 proposal。"),
        red_lines_zh: red,
    };
    proof {
        assert(s.red_lines_zh@.map_values(|t: String| t@) =~= red_line_texts());
    }
    s
}

/// The artifact a video context package is built around.
#[derive(Debug, Clone)]
pub struct VideoProjectAnchorArtifactV1 {
    pub artifact_id: String,
    pub artifact_kind: ArtifactKind,
    pub title: String,
    pub source_path: String,
}

/// The anchor entry of an artifact.
pub fn anchor_artifact(a: &ArtifactRefV1) -> (r: VideoProjectAnchorArtifactV1)
    ensures
        r.artifact_id@ == a.id@,
        r.artifact_kind == a.kind,
        r.title@ == a.title@,
        r.source_path@ == a.source_path@,
{
    VideoProjectAnchorArtifactV1 {
        artifact_id: copy_text(&a.id),
        artifact_kind: a.kind,
        title: copy_text(&a.title),
        source_path: copy_text(&a.source_path),
    }
}

/// A conflicted proposal of the history, as the context lists it.
#[derive(Debug, Clone)]
pub struct VideoProjectProposalConflictSummaryV1 {
    pub proposal_id: String,
    pub revision: u64,
    pub status: String,
    pub conflict: ProjectVideoClipProposalConflictV1,
}

fn copy_conflict(c: &ProjectVideoClipProposalConflictV1) -> (r: ProjectVideoClipProposalConflictV1)
    ensures
        r.conflict_type@ == c.conflict_type@,
        r.message_zh@ == c.message_zh@,
        r.base_queue_hash@ == c.base_queue_hash@,
        r.current_queue_hash@ == c.current_queue_hash@,
        r.detected_at == c.detected_at,
{
    ProjectVideoClipProposalConflictV1 {
        conflict_type: copy_text(&c.conflict_type),
        message_zh: copy_text(&c.message_zh),
        base_queue_hash: copy_text(&c.base_queue_hash),
        current_queue_hash: copy_text(&c.current_queue_hash),
        detected_at: c.detected_at,
    }
}

/// The summary of a history entry that records a conflict; `None` for one
/// that does not.
pub fn conflict_summary(
    proposal_id: &str,
    revision: u64,
    status: &str,
    conflict: &Option<ProjectVideoClipProposalConflictV1>,
) -> (r: Option<VideoProjectProposalConflictSummaryV1>)
    ensures
        conflict is None <==> r is None,
        r matches Some(c) ==> {
            &&& c.proposal_id@ == proposal_id@
            &&& c.revision == revision
            &&& c.status@ == status@
            &&& c.conflict.conflict_type@ == conflict.unwrap().conflict_type@
            &&& c.conflict.base_queue_hash@ == conflict.unwrap().base_queue_hash@
            &&& c.conflict.current_queue_hash@ == conflict.unwrap().current_queue_hash@
            &&& c.conflict.message_zh@ == conflict.unwrap().message_zh@
            &&& c.conflict.detected_at == conflict.unwrap().detected_at
        },
{
    match conflict {
        Some(c) => Some(VideoProjectProposalConflictSummaryV1 {
            proposal_id: lit(proposal_id),
            revision,
            status: lit(status),
            conflict: copy_conflict(c),
        }),
        None => None,
    }
}

/// The design constraints a video context carries: the design language's
/// ref, its summary and the assets selected for the anchor.
#[derive(Debug, Clone)]
pub struct VideoProjectDesignConstraintsV1 {
    pub design_language_ref: String,
    pub summary: DesignLanguageSummaryV1,
    pub assets: Vec<DesignLanguageAssetV1>,
}

/// The design constraints of a summary and its selected assets; the ref is
/// the summary's own.
pub fn design_constraints(summary: DesignLanguageSummaryV1, assets: Vec<DesignLanguageAssetV1>) -> (r: VideoProjectDesignConstraintsV1)
    ensures
        r.design_language_ref@ == summary.design_language_ref@,
        r.summary == summary,
        r.assets@ == assets@,
{
    VideoProjectDesignConstraintsV1 {
        design_language_ref: copy_text(&summary.design_language_ref),
        summary,
        assets,
    }
}

/// What a context package reads of one proposal history entry.
#[derive(Debug, Clone)]
pub struct ProposalHistoryRef {
    pub proposal_id: String,
    pub revision: u64,
    pub status: String,
    pub base_queue_hash: String,
    pub current_queue_hash: Option<String>,
    /// The recorded decision word (`accept` or `reject`), if decided.
    pub decision: Option<String>,
    pub conflict: Option<ProjectVideoClipProposalConflictV1>,
}

/// A text that may be absent, as JSON: the string or null.
pub open spec fn text_or_null(o: Option<Seq<char>>) -> JsonView {
    match o {
        Some(t) => JsonView::Text(t),
        None => JsonView::Null,
    }
}

/// What the package id covers of a history entry.
pub open spec fn history_basis(e: ProposalHistoryRef) -> JsonView {
    JsonView::Object(
        seq![
            ("base_queue_hash"@, JsonView::Text(e.base_queue_hash@)),
            ("conflict"@, conflict_basis(e.conflict)),
            ("current_queue_hash"@, text_or_null(opt_view(e.current_queue_hash))),
            ("decision"@, text_or_null(opt_view(e.decision))),
            ("proposal_id"@, JsonView::Text(e.proposal_id@)),
            ("revision"@, JsonView::Number(e.revision)),
            ("status"@, JsonView::Text(e.status@)),
        ],
    )
}

/// What the package id covers: the project, the anchor, each source video
/// as `[artifact id, source path]`, the queue hash, the history and the
/// design language ref.
pub open spec fn context_basis(
    project_id: Seq<char>,
    anchor_id: Seq<char>,
    media: Seq<ArtifactRefV1>,
    queue_hash: Seq<char>,
    history: Seq<ProposalHistoryRef>,
    design_language_ref: Seq<char>,
) -> JsonView {
    JsonView::Object(
        seq![
            ("anchor_artifact_id"@, JsonView::Text(anchor_id)),
            ("current_queue_hash"@, JsonView::Text(queue_hash)),
            ("design_language_ref"@, JsonView::Text(design_language_ref)),
            ("history"@, JsonView::Array(Seq::new(history.len(), |i: int| history_basis(history[i])))),
            ("project_id"@, JsonView::Text(project_id)),
            ("source_media"@, JsonView::Array(
                Seq::new(
                    media.len(),
                    |i: int| JsonView::Array(seq![JsonView::Text(media[i].id@), JsonView::Text(media[i].source_path@)]),
                ),
            )),
        ],
    )
}

/// The video artifacts of `artifacts`, in order.
pub open spec fn video_artifacts(artifacts: Seq<ArtifactRefV1>) -> Seq<ArtifactRefV1> {
    let pos = video_artifact_positions(artifacts, artifacts.len() as int);
    Seq::new(pos.len(), |i: int| artifacts[pos[i]])
}

/// The positions of the first `n` history entries that record a conflict.
pub open spec fn conflict_positions(h: Seq<ProposalHistoryRef>, n: int) -> Seq<int>
    decreases n,
{
    if n <= 0 {
        seq![]
    } else if h[n - 1].conflict is Some {
        conflict_positions(h, n - 1).push(n - 1)
    } else {
        conflict_positions(h, n - 1)
    }
}

/// The video side of a context package.
pub struct VideoProjectContextPackageV1 {
    pub schema_version: String,
    pub package_id: String,
    pub project_summary: VideoProjectSummaryV1,
    pub anchor_artifact: VideoProjectAnchorArtifactV1,
    pub source_media: Vec<VideoMediaSource>,
    pub current_queue_hash: String,
    pub queue_item_count: usize,
    pub history_entry_count: usize,
    pub status_counts: Vec<(String, usize)>,
    pub conflicts: Vec<VideoProjectProposalConflictSummaryV1>,
    pub design_constraints: VideoProjectDesignConstraintsV1,
    pub safety: VideoProjectContextSafetyV1,
    pub generated_at: u64,
}

fn text_value(s: &str) -> (v: JsonValue)
    ensures
        json_view(v) == JsonView::Text(s@),
{
    JsonValue::Text(lit(s))
}

fn opt_text_value(o: &Option<String>) -> (v: JsonValue)
    ensures
        json_view(v) == text_or_null(opt_view(*o)),
{
    match o {
        Some(t) => JsonValue::Text(lit(t.as_str())),
        None => JsonValue::Null,
    }
}

/// What the package id covers of a recorded conflict.
pub open spec fn conflict_basis(c: Option<ProjectVideoClipProposalConflictV1>) -> JsonView {
    match c {
        Some(c) => JsonView::Array(
            seq![
                JsonView::Text(c.conflict_type@),
                JsonView::Text(c.base_queue_hash@),
                JsonView::Text(c.current_queue_hash@),
            ],
        ),
        None => JsonView::Null,
    }
}

fn conflict_value(o: &Option<ProjectVideoClipProposalConflictV1>) -> (v: JsonValue)
    ensures
        json_view(v) == conflict_basis(*o),
{
    match o {
        Some(c) => {
            let mut parts: Vec<JsonValue> = Vec::new();
            parts.push(text_value(c.conflict_type.as_str()));
            parts.push(text_value(c.base_queue_hash.as_str()));
            parts.push(text_value(c.current_queue_hash.as_str()));
            let a = JsonValue::Array(parts);
            proof {
                assert(json_view(a)->Array_0 =~= conflict_basis(*o)->Array_0);
            }
            a
        },
        None => JsonValue::Null,
    }
}

fn history_value(e: &ProposalHistoryRef) -> (v: JsonValue)
    ensures
        json_view(v) == history_basis(*e),
{
    let conflict = conflict_value(&e.conflict);
    let mut f: Vec<(String, JsonValue)> = Vec::new();
    f.push((lit("base_queue_hash"), text_value(e.base_queue_hash.as_str())));
    f.push((lit("conflict"), conflict));
    f.push((lit("current_queue_hash"), opt_text_value(&e.current_queue_hash)));
    f.push((lit("decision"), opt_text_value(&e.decision)));
    f.push((lit("proposal_id"), text_value(e.proposal_id.as_str())));
    f.push((lit("revision"), JsonValue::Number(e.revision)));
    f.push((lit("status"), text_value(e.status.as_str())));
    let v = JsonValue::Object(f);
    proof {
        assert(json_view(f@[5].1) == JsonView::Number(e.revision));
        assert(json_view(v)->Object_0 =~= history_basis(*e)->Object_0);
    }
    v
}

fn context_basis_value(
    project_id: &str,
    anchor_id: &str,
    artifacts: &[ArtifactRefV1],
    queue_hash: &str,
    history: &[ProposalHistoryRef],
    design_language_ref: &str,
) -> (v: JsonValue)
    ensures
        json_view(v) == context_basis(project_id@, anchor_id@, video_artifacts(artifacts@), queue_hash@, history@, design_language_ref@),
{
    let mut media: Vec<JsonValue> = Vec::new();
    let mut i: usize = 0;
    while i < artifacts.len()
        invariant
            i <= artifacts.len(),
            media.len() == video_artifact_positions(artifacts@, i as int).len(),
            forall|m: int| 0 <= m < media.len() ==> json_view(#[trigger] media@[m]) == JsonView::Array(seq![
                JsonView::Text(artifacts@[video_artifact_positions(artifacts@, i as int)[m]].id@),
                JsonView::Text(artifacts@[video_artifact_positions(artifacts@, i as int)[m]].source_path@),
            ]),
        decreases artifacts.len() - i,
    {
        if matches!(artifacts[i].kind, ArtifactKind::Video) {
            let mut pair: Vec<JsonValue> = Vec::new();
            pair.push(text_value(artifacts[i].id.as_str()));
            pair.push(text_value(artifacts[i].source_path.as_str()));
            let pv = JsonValue::Array(pair);
            proof {
                assert(json_view(pv)->Array_0 =~= seq![
                    JsonView::Text(artifacts@[i as int].id@),
                    JsonView::Text(artifacts@[i as int].source_path@),
                ]);
            }
            let ghost prev = media@;
            media.push(pv);
            proof {
                assert forall|m: int| 0 <= m < media.len() implies json_view(#[trigger] media@[m]) == JsonView::Array(seq![
                    JsonView::Text(artifacts@[video_artifact_positions(artifacts@, i + 1)[m]].id@),
                    JsonView::Text(artifacts@[video_artifact_positions(artifacts@, i + 1)[m]].source_path@),
                ]) by {
                    if m < prev.len() {
                        assert(media@[m] == prev[m]);
                    }
                }
            }
        }
        i = i + 1;
    }
    let mut hs: Vec<JsonValue> = Vec::new();
    let mut j: usize = 0;
    while j < history.len()
        invariant
            j <= history.len(),
            hs.len() == j,
            forall|k: int| 0 <= k < j ==> json_view(#[trigger] hs@[k]) == history_basis(history@[k]),
        decreases history.len() - j,
    {
        hs.push(history_value(&history[j]));
        j = j + 1;
    }
    let media_v = JsonValue::Array(media);
    let history_v = JsonValue::Array(hs);
    proof {
        let vm = video_artifacts(artifacts@);
        assert(json_view(media_v)->Array_0 =~= Seq::new(
            vm.len(),
            |k: int| JsonView::Array(seq![JsonView::Text(vm[k].id@), JsonView::Text(vm[k].source_path@)]),
        ));
        assert(json_view(history_v)->Array_0 =~= Seq::new(history@.len(), |k: int| history_basis(history@[k])));
    }
    let mut f: Vec<(String, JsonValue)> = Vec::new();
    f.push((lit("anchor_artifact_id"), text_value(anchor_id)));
    f.push((lit("current_queue_hash"), text_value(queue_hash)));
    f.push((lit("design_language_ref"), text_value(design_language_ref)));
    f.push((lit("history"), history_v));
    f.push((lit("project_id"), text_value(project_id)));
    f.push((lit("source_media"), media_v));
    let v = JsonValue::Object(f);
    proof {
        assert(json_view(v)->Object_0 =~= context_basis(
            project_id@, anchor_id@, video_artifacts(artifacts@), queue_hash@, history@, design_language_ref@,
        )->Object_0);
    }
    v
}

/// The video context of a context package, built around `anchor`: `None`
/// for a project with no source video, no queued clip and no proposal
/// history; otherwise the project's counts, its source videos, the queue
/// hash, the history's status counts and conflicts, the design
/// constraints, the read-only promises, and an id hashed from all of it.
pub fn video_project_context(
    project: &ProjectManifestV1,
    anchor: &ArtifactRefV1,
    artifacts: &[ArtifactRefV1],
    queue: &[ProjectVideoClipQueueItemV1],
    history: &[ProposalHistoryRef],
    design_summary: DesignLanguageSummaryV1,
    design_assets: Vec<DesignLanguageAssetV1>,
    generated_at: u64,
) -> (r: Option<VideoProjectContextPackageV1>)
    ensures
        r is None <==> (video_artifact_positions(artifacts@, artifacts.len() as int).len() == 0 && queue.len() == 0
            && history.len() == 0),
        r matches Some(p) ==> {
            let qh = hashed_id("queue-fnv1a64-"@, queue_basis(queue@));
            &&& p.schema_version@ == "capy.video-project-context.v1"@
            &&& p.package_id@ == hashed_id(
                "vpctx-fnv1a64-"@,
                context_basis(project.id@, anchor.id@, video_artifacts(artifacts@), qh, history@, design_summary.design_language_ref@),
            )
            &&& p.project_summary.project_id@ == project.id@
            &&& p.project_summary.project_name@ == project.name@
            &&& p.project_summary.source_media_count == p.source_media.len()
            &&& p.project_summary.queue_item_count == queue.len()
            &&& p.project_summary.proposal_history_count == history.len()
            &&& p.anchor_artifact.artifact_id@ == anchor.id@
            &&& p.anchor_artifact.artifact_kind == anchor.kind
            &&& p.anchor_artifact.title@ == anchor.title@
            &&& p.anchor_artifact.source_path@ == anchor.source_path@
            &&& p.source_media.len() == video_artifact_positions(artifacts@, artifacts.len() as int).len()
            &&& forall|m: int| 0 <= m < p.source_media.len() ==> is_media_source_of(
                #[trigger] p.source_media@[m],
                artifacts@[video_artifact_positions(artifacts@, artifacts.len() as int)[m]],
            )
            &&& p.current_queue_hash@ == qh
            &&& p.queue_item_count == queue.len()
            &&& p.history_entry_count == history.len()
            &&& strictly_sorted(count_keys(p.status_counts@))
            &&& forall|x: Seq<char>| count_keys(p.status_counts@).contains(x) <==> history_statuses(history@).contains(x)
            &&& forall|k: int| 0 <= k < p.status_counts.len() ==> (#[trigger] p.status_counts@[k]).1 == count_action(
                history_statuses(history@),
                p.status_counts@[k].0@,
            )
            &&& p.conflicts.len() == conflict_positions(history@, history@.len() as int).len()
            &&& forall|m: int| 0 <= m < p.conflicts.len() ==> is_conflict_summary_of(
                #[trigger] p.conflicts@[m],
                history@[conflict_positions(history@, history@.len() as int)[m]],
            )
            &&& p.design_constraints.design_language_ref@ == design_summary.design_language_ref@
            &&& p.design_constraints.summary == design_summary
            &&& p.design_constraints.assets@ == design_assets@
            &&& p.safety.safe_for_next_ai_input && p.safety.no_queue_write && p.safety.proposal_history_read_only
            &&& p.generated_at == generated_at
        },
{
    let source_media = video_media_sources(artifacts);
    let summary = match video_project_summary(project, source_media.len(), queue.len(), history.len()) {
        Some(s) => s,
        None => return None,
    };
    let qh = queue_hash(queue);
    let mut statuses: Vec<String> = Vec::new();
    let mut conflicts: Vec<VideoProjectProposalConflictSummaryV1> = Vec::new();
    let mut i: usize = 0;
    while i < history.len()
        invariant
            i <= history.len(),
            texts(statuses@) == history_statuses(history@.take(i as int)),
            conflicts.len() == conflict_positions(history@, i as int).len(),
            forall|m: int| 0 <= m < conflicts.len() ==> is_conflict_summary_of(
                #[trigger] conflicts@[m],
                history@[conflict_positions(history@, i as int)[m]],
            ),
        decreases history.len() - i,
    {
        let e = &history[i];
        let ghost before = statuses@;
        statuses.push(lit(e.status.as_str()));
        proof {
            assert(texts(statuses@) =~= texts(before).push(e.status@));
            assert(history_statuses(history@.take(i + 1)) =~= history_statuses(history@.take(i as int)).push(e.status@));
            assert(texts(statuses@) =~= history_statuses(history@.take(i + 1)));
        }
        match conflict_summary(e.proposal_id.as_str(), e.revision, e.status.as_str(), &e.conflict) {
            Some(c) => {
                let ghost prev = conflicts@;
                conflicts.push(c);
                proof {
                    assert forall|m: int| 0 <= m < conflicts.len() implies is_conflict_summary_of(
                        #[trigger] conflicts@[m],
                        history@[conflict_positions(history@, i + 1)[m]],
                    ) by {
                        if m < prev.len() {
                            assert(conflicts@[m] == prev[m]);
                        }
                    }
                }
            },
            None => {},
        }
        i = i + 1;
    }
    proof {
        assert(history@.take(history@.len() as int) =~= history@);
    }
    let counts = status_counts(statuses.as_slice());
    let basis = context_basis_value(
        project.id.as_str(),
        anchor.id.as_str(),
        artifacts,
        qh.as_str(),
        history,
        design_summary.design_language_ref.as_str(),
    );
    let t = json_text(&basis);
    let package_id = prefixed_hex("vpctx-fnv1a64-", fnv1a64(t.as_str().as_bytes()));
    let n = queue.len();
    let h = history.len();
    Some(VideoProjectContextPackageV1 {
        schema_version: lit("capy.video-project-context.v1"),
        package_id,
        project_summary: summary,
        anchor_artifact: anchor_artifact(anchor),
        source_media,
        current_queue_hash: qh,
        queue_item_count: n,
        history_entry_count: h,
        status_counts: counts,
        conflicts,
        design_constraints: design_constraints(design_summary, design_assets),
        safety: video_context_safety(),
        generated_at,
    })
}

/// The statuses of history entries, in order.
pub open spec fn history_statuses(h: Seq<ProposalHistoryRef>) -> Seq<Seq<char>> {
    h.map_values(|e: ProposalHistoryRef| e.status@)
}

/// `c` summarises the conflicted entry `e`.
pub open spec fn is_conflict_summary_of(c: VideoProjectProposalConflictSummaryV1, e: ProposalHistoryRef) -> bool {
    &&& e.conflict is Some
    &&& c.proposal_id@ == e.proposal_id@
    &&& c.revision == e.revision
    &&& c.status@ == e.status@
    &&& c.conflict.conflict_type@ == e.conflict.unwrap().conflict_type@
    &&& c.conflict.base_queue_hash@ == e.conflict.unwrap().base_queue_hash@
    &&& c.conflict.current_queue_hash@ == e.conflict.unwrap().current_queue_hash@
    &&& c.conflict.message_zh@ == e.conflict.unwrap().message_zh@
    &&& c.conflict.detected_at == e.conflict.unwrap().detected_at
}

} // verus!
