//! The hashed ids of the clip workflow: each is FNV-1a over the compact
//! JSON text of a basis record built from what the id stands for.

use vstd::prelude::*;
use vstd::utf8::encode_utf8;
use crate::mp4::verdict::lit;
use crate::project::hash::{fnv1a64, hex16, prefixed_hex, spec_fnv1a64};
use crate::project::json::{json_compact, json_text, json_view, JsonValue, JsonView};
use crate::project::queue::{ProjectVideoClipQueueItemV1, VideoCandidate};

verus! {

/// What a queue hash covers of one item: its id, place, composition, clip
/// and span (keys in ascending order).
pub open spec fn queue_item_basis(item: ProjectVideoClipQueueItemV1) -> JsonView {
    JsonView::Object(
        seq![
            ("clip_id"@, JsonView::Text(item.clip_id@)),
            ("composition_path"@, JsonView::Text(item.composition_path@)),
            ("end_ms"@, JsonView::Number(item.end_ms)),
            ("id"@, JsonView::Text(item.id@)),
            ("sequence"@, JsonView::Number(item.sequence)),
            ("start_ms"@, JsonView::Number(item.start_ms)),
        ],
    )
}

/// The basis of a whole queue: its items' bases, in order.
pub open spec fn queue_basis(items: Seq<ProjectVideoClipQueueItemV1>) -> JsonView {
    JsonView::Array(Seq::new(items.len(), |i: int| queue_item_basis(items[i])))
}

/// An id: `prefix` and the FNV-1a hash of the UTF-8 bytes of the compact
/// JSON text of `basis`.
pub open spec fn hashed_id(prefix: Seq<char>, basis: JsonView) -> Seq<char> {
    prefix + hex16(spec_fnv1a64(encode_utf8(json_compact(basis))))
}

fn text_value(s: &str) -> (v: JsonValue)
    ensures
        json_view(v) == JsonView::Text(s@),
{
    JsonValue::Text(lit(s))
}

fn number_value(n: u64) -> (v: JsonValue)
    ensures
        json_view(v) == JsonView::Number(n),
{
    JsonValue::Number(n)
}

fn queue_item_value(item: &ProjectVideoClipQueueItemV1) -> (v: JsonValue)
    ensures
        json_view(v) == queue_item_basis(*item),
{
    let mut f: Vec<(String, JsonValue)> = Vec::new();
    f.push((lit("clip_id"), text_value(item.clip_id.as_str())));
    f.push((lit("composition_path"), text_value(item.composition_path.as_str())));
    f.push((lit("end_ms"), number_value(item.end_ms)));
    f.push((lit("id"), text_value(item.id.as_str())));
    f.push((lit("sequence"), number_value(item.sequence)));
    f.push((lit("start_ms"), number_value(item.start_ms)));
    let v = JsonValue::Object(f);
    proof {
        assert(json_view(v)->Object_0 =~= queue_item_basis(*item)->Object_0);
    }
    v
}

fn queue_value(items: &[ProjectVideoClipQueueItemV1]) -> (v: JsonValue)
    ensures
        json_view(v) == queue_basis(items@),
{
    let mut out: Vec<JsonValue> = Vec::new();
    let mut i: usize = 0;
    while i < items.len()
        invariant
            i <= items.len(),
            out.len() == i,
            forall|k: int| 0 <= k < i ==> json_view(#[trigger] out@[k]) == queue_item_basis(items@[k]),
        decreases items.len() - i,
    {
        out.push(queue_item_value(&items[i]));
        i = i + 1;
    }
    let v = JsonValue::Array(out);
    proof {
        assert(json_view(v)->Array_0 =~= queue_basis(items@)->Array_0);
    }
    v
}

fn hashed(prefix: &str, basis: &JsonValue) -> (s: String)
    ensures
        s@ == hashed_id(prefix@, json_view(*basis)),
{
    let t = json_text(basis);
    prefixed_hex(prefix, fnv1a64(t.as_str().as_bytes()))
}

/// The hash of a clip queue: `queue-fnv1a64-` and the hash of its basis.
pub fn queue_hash(items: &[ProjectVideoClipQueueItemV1]) -> (s: String)
    ensures
        s@ == hashed_id("queue-fnv1a64-"@, queue_basis(items@)),
{
    let v = queue_value(items);
    hashed("queue-fnv1a64-", &v)
}

/// What a proposal id covers: the project, the suggestion it came from, its
/// revision, the queue hash it was made on, and the queue before and after.
pub open spec fn proposal_basis(
    project_id: Seq<char>,
    suggestion_id: Seq<char>,
    revision: u64,
    base_queue_hash: Seq<char>,
    before: Seq<ProjectVideoClipQueueItemV1>,
    after: Seq<ProjectVideoClipQueueItemV1>,
) -> JsonView {
    JsonView::Object(
        seq![
            ("after"@, queue_basis(after)),
            ("base_queue_hash"@, JsonView::Text(base_queue_hash)),
            ("before"@, queue_basis(before)),
            ("project_id"@, JsonView::Text(project_id)),
            ("revision"@, JsonView::Number(revision)),
            ("suggestion_id"@, JsonView::Text(suggestion_id)),
        ],
    )
}

/// The id of a clip proposal: `proposal-fnv1a64-` and the hash of its
/// basis.
pub fn video_clip_proposal_id(
    project_id: &str,
    suggestion_id: &str,
    revision: u64,
    base_queue_hash: &str,
    before: &[ProjectVideoClipQueueItemV1],
    after: &[ProjectVideoClipQueueItemV1],
) -> (s: String)
    ensures
        s@ == hashed_id(
            "proposal-fnv1a64-"@,
            proposal_basis(project_id@, suggestion_id@, revision, base_queue_hash@, before@, after@),
        ),
{
    let mut f: Vec<(String, JsonValue)> = Vec::new();
    f.push((lit("after"), queue_value(after)));
    f.push((lit("base_queue_hash"), text_value(base_queue_hash)));
    f.push((lit("before"), queue_value(before)));
    f.push((lit("project_id"), text_value(project_id)));
    f.push((lit("revision"), number_value(revision)));
    f.push((lit("suggestion_id"), text_value(suggestion_id)));
    let v = JsonValue::Object(f);
    proof {
        assert(json_view(v)->Object_0 =~= proposal_basis(
            project_id@, suggestion_id@, revision, base_queue_hash@, before@, after@,
        )->Object_0);
    }
    hashed("proposal-fnv1a64-", &v)
}

/// What a suggestion's basis holds of a queued clip.
pub open spec fn suggestion_queue_item(item: ProjectVideoClipQueueItemV1) -> JsonView {
    JsonView::Object(
        seq![
            ("composition_path"@, JsonView::Text(item.composition_path@)),
            ("end_ms"@, JsonView::Number(item.end_ms)),
            ("id"@, JsonView::Text(item.id@)),
            ("scene"@, JsonView::Text(item.scene@)),
            ("sequence"@, JsonView::Number(item.sequence)),
            ("start_ms"@, JsonView::Number(item.start_ms)),
        ],
    )
}

/// What a suggestion's basis holds of a source video.
pub open spec fn suggestion_video(v: VideoCandidate) -> JsonView {
    JsonView::Object(
        seq![
            ("artifact_id"@, JsonView::Text(v.artifact_id@)),
            ("composition_path"@, JsonView::Text(v.composition_path@)),
            ("duration_ms"@, JsonView::Number(v.duration_ms)),
            ("source_path"@, JsonView::Text(v.source_path@)),
        ],
    )
}

/// What a suggestion id covers: the project, the current queue and the
/// project's videos, under the queue's schema.
pub open spec fn suggestion_basis(
    project_id: Seq<char>,
    queue: Seq<ProjectVideoClipQueueItemV1>,
    videos: Seq<VideoCandidate>,
) -> JsonView {
    JsonView::Object(
        seq![
            ("project_id"@, JsonView::Text(project_id)),
            ("queue"@, JsonView::Array(Seq::new(queue.len(), |i: int| suggestion_queue_item(queue[i])))),
            ("schema_version"@, JsonView::Text("capy.project-video-clip-queue.v1"@)),
            ("videos"@, JsonView::Array(Seq::new(videos.len(), |i: int| suggestion_video(videos[i])))),
        ],
    )
}

/// The id of a clip suggestion: `sug-fnv1a64-` and the hash of its basis.
pub fn video_clip_suggestion_id(
    project_id: &str,
    queue: &[ProjectVideoClipQueueItemV1],
    videos: &[VideoCandidate],
) -> (s: String)
    ensures
        s@ == hashed_id("sug-fnv1a64-"@, suggestion_basis(project_id@, queue@, videos@)),
{
    let mut qs: Vec<JsonValue> = Vec::new();
    let mut i: usize = 0;
    while i < queue.len()
        invariant
            i <= queue.len(),
            qs.len() == i,
            forall|k: int| 0 <= k < i ==> json_view(#[trigger] qs@[k]) == suggestion_queue_item(queue@[k]),
        decreases queue.len() - i,
    {
        let item = &queue[i];
        let mut f: Vec<(String, JsonValue)> = Vec::new();
        f.push((lit("composition_path"), text_value(item.composition_path.as_str())));
        f.push((lit("end_ms"), number_value(item.end_ms)));
        f.push((lit("id"), text_value(item.id.as_str())));
        f.push((lit("scene"), text_value(item.scene.as_str())));
        f.push((lit("sequence"), number_value(item.sequence)));
        f.push((lit("start_ms"), number_value(item.start_ms)));
        let v = JsonValue::Object(f);
        proof {
            assert(json_view(v)->Object_0 =~= suggestion_queue_item(*item)->Object_0);
        }
        qs.push(v);
        i = i + 1;
    }
    let mut vs: Vec<JsonValue> = Vec::new();
    let mut j: usize = 0;
    while j < videos.len()
        invariant
            j <= videos.len(),
            vs.len() == j,
            forall|k: int| 0 <= k < j ==> json_view(#[trigger] vs@[k]) == suggestion_video(videos@[k]),
        decreases videos.len() - j,
    {
        let video = &videos[j];
        let mut f: Vec<(String, JsonValue)> = Vec::new();
        f.push((lit("artifact_id"), text_value(video.artifact_id.as_str())));
        f.push((lit("composition_path"), text_value(video.composition_path.as_str())));
        f.push((lit("duration_ms"), number_value(video.duration_ms)));
        f.push((lit("source_path"), text_value(video.source_path.as_str())));
        let v = JsonValue::Object(f);
        proof {
            assert(json_view(v)->Object_0 =~= suggestion_video(*video)->Object_0);
        }
        vs.push(v);
        j = j + 1;
    }
    let queue_v = JsonValue::Array(qs);
    let videos_v = JsonValue::Array(vs);
    proof {
        assert(json_view(queue_v)->Array_0 =~= Seq::new(queue@.len(), |i: int| suggestion_queue_item(queue@[i])));
        assert(json_view(videos_v)->Array_0 =~= Seq::new(videos@.len(), |i: int| suggestion_video(videos@[i])));
    }
    let mut f: Vec<(String, JsonValue)> = Vec::new();
    f.push((lit("project_id"), text_value(project_id)));
    f.push((lit("queue"), queue_v));
    f.push((lit("schema_version"), text_value("capy.project-video-clip-queue.v1")));
    f.push((lit("videos"), videos_v));
    let v = JsonValue::Object(f);
    proof {
        assert(json_view(v)->Object_0 =~= suggestion_basis(project_id@, queue@, videos@)->Object_0);
    }
    hashed("sug-fnv1a64-", &v)
}

} // verus!
