//! The video clip queue of a project and what is derived from it: the
//! normalized queue, semantic notes per clip, suggestions, and PM feedback.
//!
//! A clip's `source_video` record is carried as its JSON text.

use vstd::prelude::*;
use crate::text::decimal_string;
use crate::mp4::verdict::lit;
use vstd::utf8::encode_utf8;
use crate::project::clips::{
    classify_feedback, clip_duration, spec_classify_feedback, rhythm_for_duration, spec_clip_duration, spec_rhythm, spec_tags, spec_use_case, tags_for,
    unicode_lowercase, use_case_for,
};
use crate::project::hash::{clip_semantic_key, feedback_id, fnv1a64, hex16, semantic_id, spec_clip_key, spec_fnv1a64};
use crate::project::order::{lemma_pair_text_order, pair_text_lt, text_lt};
use crate::text::texts;
use crate::project::stable::{lemma_stable_order_same_keys, lemma_stable_order_sorted, stable_order, stable_sort, take_in_order, SortKey};
use crate::parallel::two_digits;
use crate::project::json::{
    json_compact, json_kind, json_kind_of, json_string_at, json_string_field, json_text, json_u64_at, json_u64_field,
    json_value_at, json_value_field, json_view, JsonKind, JsonValue, JsonView,
};
use crate::project::model::{ArtifactKind, ArtifactRefV1};
use crate::project::proposal::{as_int, same_text};
use crate::text::{chars_of, decimal, decimal_chars, string_from_chars, trim, trim_chars};

verus! {

/// The record a clip keeps of the video it was cut from: its artifact id,
/// source path, file name, length and frame size (keys in ascending
/// order).
pub open spec fn video_source_record(
    artifact_id: Seq<char>,
    src: Seq<char>,
    filename: Seq<char>,
    duration_ms: u64,
    width: u64,
    height: u64,
) -> JsonView {
    JsonView::Object(
        seq![
            ("artifact_id"@, JsonView::Text(artifact_id)),
            ("duration_ms"@, JsonView::Number(duration_ms)),
            ("filename"@, JsonView::Text(filename)),
            ("height"@, JsonView::Number(height)),
            ("src"@, JsonView::Text(src)),
            ("width"@, JsonView::Number(width)),
        ],
    )
}

/// The compact JSON text of that record.
pub open spec fn video_source_text(
    artifact_id: Seq<char>,
    src: Seq<char>,
    filename: Seq<char>,
    duration_ms: u64,
    width: u64,
    height: u64,
) -> Seq<char> {
    json_compact(video_source_record(artifact_id, src, filename, duration_ms, width, height))
}

fn video_source_json(artifact_id: &str, src: &str, filename: &str, duration_ms: u64, width: u64, height: u64) -> (r: String)
    ensures
        r@ == video_source_text(artifact_id@, src@, filename@, duration_ms, width, height),
{
    let mut fields: Vec<(String, JsonValue)> = Vec::new();
    fields.push((lit("artifact_id"), JsonValue::Text(lit(artifact_id))));
    fields.push((lit("duration_ms"), JsonValue::Number(duration_ms)));
    fields.push((lit("filename"), JsonValue::Text(lit(filename))));
    fields.push((lit("height"), JsonValue::Number(height)));
    fields.push((lit("src"), JsonValue::Text(lit(src))));
    fields.push((lit("width"), JsonValue::Number(width)));
    let record = JsonValue::Object(fields);
    proof {
        let w = json_view(record);
        assert(json_view(fields@[0].1) == JsonView::Text(artifact_id@));
        assert(json_view(fields@[1].1) == JsonView::Number(duration_ms));
        assert(json_view(fields@[2].1) == JsonView::Text(filename@));
        assert(json_view(fields@[3].1) == JsonView::Number(height));
        assert(json_view(fields@[4].1) == JsonView::Text(src@));
        assert(json_view(fields@[5].1) == JsonView::Number(width));
        assert(w->Object_0 =~= video_source_record(artifact_id@, src@, filename@, duration_ms, width, height)->Object_0);
        assert(w == video_source_record(artifact_id@, src@, filename@, duration_ms, width, height));
    }
    json_text(&record)
}

/// One clip of the project's linear edit queue.
pub struct ProjectVideoClipQueueItemV1 {
    pub id: String,
    pub sequence: u64,
    pub composition_path: String,
    pub render_source_path: String,
    pub clip_id: String,
    pub track_id: String,
    pub scene: String,
    pub start_ms: u64,
    pub end_ms: u64,
    pub duration_ms: u64,
    pub source_video: Option<String>,
    pub suggestion_id: Option<String>,
    pub suggestion_reason: Option<String>,
    pub semantic_ref: Option<String>,
    pub semantic_summary: Option<String>,
    pub semantic_tags: Vec<String>,
    pub semantic_reason: Option<String>,
    pub updated_at: u64,
}

pub open spec fn opt_view(o: Option<String>) -> Option<Seq<char>> {
    match o {
        Some(s) => Some(s@),
        None => None,
    }
}

pub fn copy_text(s: &String) -> (r: String)
    ensures
        r@ == s@,
{
    lit(s.as_str())
}

pub fn copy_opt(o: &Option<String>) -> (r: Option<String>)
    ensures
        opt_view(r) == opt_view(*o),
{
    match o {
        Some(s) => Some(copy_text(s)),
        None => None,
    }
}

pub fn copy_texts(v: &[String]) -> (r: Vec<String>)
    ensures
        texts(r@) == texts(v@),
{
    let mut r: Vec<String> = Vec::new();
    let mut i: usize = 0;
    while i < v.len()
        invariant
            i <= v.len(),
            texts(r@) == texts(v@.take(i as int)),
        decreases v.len() - i,
    {
        r.push(copy_text(&v[i]));
        proof {
            assert(texts(v@.take(i + 1)) =~= texts(v@.take(i as int)).push(v@[i as int]@));
            assert(texts(r@) =~= texts(v@.take(i as int)).push(v@[i as int]@));
        }
        i = i + 1;
    }
    proof {
        assert(v@.take(v.len() as int) =~= v@);
    }
    r
}

/// The text of a queue item as the contracts read it (every field by its
/// view).
pub open spec fn same_queue_item(a: ProjectVideoClipQueueItemV1, b: ProjectVideoClipQueueItemV1) -> bool {
    &&& a.id@ == b.id@
    &&& a.sequence == b.sequence
    &&& a.composition_path@ == b.composition_path@
    &&& a.render_source_path@ == b.render_source_path@
    &&& a.clip_id@ == b.clip_id@
    &&& a.track_id@ == b.track_id@
    &&& a.scene@ == b.scene@
    &&& a.start_ms == b.start_ms
    &&& a.end_ms == b.end_ms
    &&& a.duration_ms == b.duration_ms
    &&& opt_view(a.source_video) == opt_view(b.source_video)
    &&& opt_view(a.suggestion_id) == opt_view(b.suggestion_id)
    &&& opt_view(a.suggestion_reason) == opt_view(b.suggestion_reason)
    &&& opt_view(a.semantic_ref) == opt_view(b.semantic_ref)
    &&& opt_view(a.semantic_summary) == opt_view(b.semantic_summary)
    &&& texts(a.semantic_tags@) == texts(b.semantic_tags@)
    &&& opt_view(a.semantic_reason) == opt_view(b.semantic_reason)
    &&& a.updated_at == b.updated_at
}

/// The clip key of a queue item.
pub fn queue_item_clip_key(item: &ProjectVideoClipQueueItemV1) -> (s: String)
    ensures
        s@ == spec_clip_key(item.composition_path@, item.clip_id@, item.start_ms, item.end_ms),
{
    clip_semantic_key(item.composition_path.as_str(), item.clip_id.as_str(), item.start_ms, item.end_ms)
}

/// `r` is the queue `items` normalized: renumbered from 1 in order, each
/// length made at least its span and at least 1 ms, all else kept.
pub open spec fn normalized_from(r: Seq<ProjectVideoClipQueueItemV1>, items: Seq<ProjectVideoClipQueueItemV1>) -> bool {
    &&& r.len() == items.len()
    &&& forall|i: int|
        0 <= i < r.len() ==> {
            let a = #[trigger] r[i];
            let b = items[i];
            &&& a.sequence == i + 1
            &&& a.duration_ms == spec_clip_duration(b.duration_ms, b.start_ms, b.end_ms)
            &&& same_queue_item(
                a,
                ProjectVideoClipQueueItemV1 { sequence: a.sequence, duration_ms: a.duration_ms, ..b },
            )
        }
}

/// A queue as normalizing leaves it: numbered from 1 in order, each length
/// already at least its span and at least 1 ms.
pub open spec fn is_normalized_queue(items: Seq<ProjectVideoClipQueueItemV1>) -> bool {
    forall|i: int|
        0 <= i < items.len() ==> {
            &&& (#[trigger] items[i]).sequence == i + 1
            &&& items[i].duration_ms == spec_clip_duration(items[i].duration_ms, items[i].start_ms, items[i].end_ms)
        }
}

/// The length rule is idempotent.
pub proof fn lemma_clip_duration_idempotent(duration_ms: u64, start_ms: u64, end_ms: u64)
    ensures
        spec_clip_duration(spec_clip_duration(duration_ms, start_ms, end_ms), start_ms, end_ms)
            == spec_clip_duration(duration_ms, start_ms, end_ms),
{
}

/// A queue written normalized reads back unchanged: what normalizing gives
/// is normalized, and normalizing a normalized queue keeps every item.
pub proof fn lemma_queue_round_trip(
    r: Seq<ProjectVideoClipQueueItemV1>,
    items: Seq<ProjectVideoClipQueueItemV1>,
)
    requires
        normalized_from(r, items),
    ensures
        is_normalized_queue(r),
        is_normalized_queue(items) ==> forall|i: int| 0 <= i < r.len() ==> same_queue_item(#[trigger] r[i], items[i]),
{
    assert forall|i: int| 0 <= i < r.len() implies {
        &&& (#[trigger] r[i]).sequence == i + 1
        &&& r[i].duration_ms == spec_clip_duration(r[i].duration_ms, r[i].start_ms, r[i].end_ms)
    } by {
        let b = items[i];
        lemma_clip_duration_idempotent(b.duration_ms, b.start_ms, b.end_ms);
    }
}

/// The items of a queue read from disk, renumbered from 1 in order, each
/// with its recorded length made at least its span and at least 1 ms.
pub fn normalize_items(items: Vec<ProjectVideoClipQueueItemV1>) -> (r: Vec<ProjectVideoClipQueueItemV1>)
    requires
        items.len() < u64::MAX,
    ensures
        normalized_from(r@, items@),
{
    let ghost orig = items@;
    let n = items.len();
    let mut rest = items;
    let mut r: Vec<ProjectVideoClipQueueItemV1> = Vec::new();
    let mut i: usize = 0;
    while i < n
        invariant
            i <= n,
            n == orig.len(),
            n < u64::MAX,
            rest@ == orig.subrange(i as int, n as int),
            r.len() == i,
            forall|k: int|
                0 <= k < i ==> {
                    let a = #[trigger] r@[k];
                    let b = orig[k];
                    &&& a.sequence == k + 1
                    &&& a.duration_ms == spec_clip_duration(b.duration_ms, b.start_ms, b.end_ms)
                    &&& same_queue_item(
                        a,
                        ProjectVideoClipQueueItemV1 { sequence: a.sequence, duration_ms: a.duration_ms, ..b },
                    )
                },
        decreases n - i,
    {
        let mut item = rest.remove(0);
        proof {
            assert(item == orig[i as int]);
            assert(rest@ =~= orig.subrange(i + 1, n as int));
        }
        item.duration_ms = clip_duration(item.duration_ms, item.start_ms, item.end_ms);
        item.sequence = (i + 1) as u64;
        r.push(item);
        i = i + 1;
    }
    r
}

/// The error for a queue item without a required path.
pub open spec fn path_required_message(field: Seq<char>) -> Seq<char> {
    "video clip queue item "@ + field + " is required"@
}

/// A queue item's path field, trimmed; an error when it is blank.
pub fn required_path(raw: &str, field: &str) -> (r: Result<String, String>)
    ensures
        trim(raw@).len() == 0 ==> (r matches Err(m) && m@ == path_required_message(field@)),
        trim(raw@).len() > 0 ==> (r matches Ok(s) && s@ == trim(raw@)),
{
    let cs = chars_of(raw);
    let t = trim_chars(cs.as_slice());
    if t.len() == 0 {
        let mut m = lit("video clip queue item ");
        m.append(field);
        m.append(" is required");
        Err(m)
    } else {
        Ok(string_from_chars(t.as_slice()))
    }
}

/// `Some` of the text when it is not blank.
pub open spec fn nonblank_opt(o: Option<Seq<char>>) -> Option<Seq<char>> {
    match o {
        Some(s) => if trim(s).len() > 0 {
            Some(s)
        } else {
            None
        },
        None => None,
    }
}

pub(crate) fn keep_nonblank(o: Option<String>) -> (r: Option<String>)
    ensures
        opt_view(r) == nonblank_opt(opt_view(o)),
{
    match o {
        Some(s) => {
            let cs = chars_of(s.as_str());
            let t = trim_chars(cs.as_slice());
            if t.len() == 0 {
                None
            } else {
                Some(s)
            }
        },
        None => None,
    }
}

/// The texts that are not blank, in order.
pub open spec fn nonblank_texts(v: Seq<Seq<char>>) -> Seq<Seq<char>>
    decreases v.len(),
{
    if v.len() == 0 {
        seq![]
    } else if trim(v.last()).len() > 0 {
        nonblank_texts(v.drop_last()).push(v.last())
    } else {
        nonblank_texts(v.drop_last())
    }
}

/// The strings of `v` that are not blank, in order.
pub fn keep_nonblank_texts(v: Vec<String>) -> (r: Vec<String>)
    ensures
        texts(r@) == nonblank_texts(texts(v@)),
{
    let ghost orig = v@;
    let n = v.len();
    let mut rest = v;
    let mut r: Vec<String> = Vec::new();
    let mut i: usize = 0;
    while i < n
        invariant
            i <= n,
            n == orig.len(),
            rest@ == orig.subrange(i as int, n as int),
            texts(r@) == nonblank_texts(texts(orig.take(i as int))),
        decreases n - i,
    {
        let s = rest.remove(0);
        proof {
            assert(s == orig[i as int]);
            assert(rest@ =~= orig.subrange(i + 1, n as int));
            assert(texts(orig.take(i + 1)).drop_last() =~= texts(orig.take(i as int)));
            assert(texts(orig.take(i + 1)).last() == s@);
        }
        let cs = chars_of(s.as_str());
        let t = trim_chars(cs.as_slice());
        if t.len() > 0 {
            let ghost before = r@;
            r.push(s);
            proof {
                assert(texts(r@) =~= texts(before).push(orig[i as int]@));
            }
        }
        i = i + 1;
    }
    proof {
        assert(orig.take(n as int) =~= orig);
    }
    r
}

/// The end of a clip as the queue records it: at least 1 ms after its
/// start.
pub open spec fn queue_end(start_ms: u64, end_ms: u64) -> u64 {
    let min_end: u64 = if start_ms == u64::MAX {
        u64::MAX
    } else {
        (start_ms + 1) as u64
    };
    if end_ms >= min_end {
        end_ms
    } else {
        min_end
    }
}

/// `queue-<n>`, the id a queue item gets when it has none.
pub open spec fn default_queue_id(n: nat) -> Seq<char> {
    "queue-"@ + decimal(n)
}

/// A queue item as it is written: numbered `index + 1`, with an id, a clip
/// id, an end after its start, a length at least its span, blank optional
/// texts and tags dropped, stamped `now`. `composition_path` and
/// `render_source_path` are the item's paths already resolved against the
/// project root.
pub fn normalize_manifest_item(
    item: ProjectVideoClipQueueItemV1,
    index: usize,
    now: u64,
    composition_path: String,
    render_source_path: String,
) -> (r: ProjectVideoClipQueueItemV1)
    requires
        index < u64::MAX,
    ensures
        trim(item.id@).len() == 0 ==> r.id@ == default_queue_id((index + 1) as nat),
        trim(item.id@).len() > 0 ==> r.id@ == item.id@,
        r.sequence == index + 1,
        r.composition_path@ == composition_path@,
        r.render_source_path@ == render_source_path@,
        trim(item.clip_id@).len() == 0 ==> r.clip_id@ == "source"@,
        trim(item.clip_id@).len() > 0 ==> r.clip_id@ == item.clip_id@,
        r.track_id@ == item.track_id@,
        r.scene@ == item.scene@,
        r.start_ms == item.start_ms,
        r.end_ms == queue_end(item.start_ms, item.end_ms),
        r.duration_ms == spec_clip_duration(item.duration_ms, item.start_ms, queue_end(item.start_ms, item.end_ms)),
        opt_view(r.source_video) == opt_view(item.source_video),
        opt_view(r.suggestion_id) == nonblank_opt(opt_view(item.suggestion_id)),
        opt_view(r.suggestion_reason) == nonblank_opt(opt_view(item.suggestion_reason)),
        opt_view(r.semantic_ref) == nonblank_opt(opt_view(item.semantic_ref)),
        opt_view(r.semantic_summary) == nonblank_opt(opt_view(item.semantic_summary)),
        texts(r.semantic_tags@) == nonblank_texts(texts(item.semantic_tags@)),
        opt_view(r.semantic_reason) == nonblank_opt(opt_view(item.semantic_reason)),
        r.updated_at == now,
{
    let number: u64 = index as u64 + 1;
    let start_ms = item.start_ms;
    let min_end = start_ms.saturating_add(1);
    let end_ms = if item.end_ms >= min_end {
        item.end_ms
    } else {
        min_end
    };
    let duration_ms = clip_duration(item.duration_ms, start_ms, end_ms);
    let id_chars = chars_of(item.id.as_str());
    let id_trim = trim_chars(id_chars.as_slice());
    let id = if id_trim.len() == 0 {
        let d = decimal_chars(number);
        let ds = string_from_chars(d.as_slice());
        let mut s = lit("queue-");
        s.append(ds.as_str());
        s
    } else {
        item.id
    };
    let clip_chars = chars_of(item.clip_id.as_str());
    let clip_trim = trim_chars(clip_chars.as_slice());
    let clip_id = if clip_trim.len() == 0 {
        lit("source")
    } else {
        item.clip_id
    };
    ProjectVideoClipQueueItemV1 {
        id,
        sequence: number,
        composition_path,
        render_source_path,
        clip_id,
        track_id: item.track_id,
        scene: item.scene,
        start_ms,
        end_ms,
        duration_ms,
        source_video: item.source_video,
        suggestion_id: keep_nonblank(item.suggestion_id),
        suggestion_reason: keep_nonblank(item.suggestion_reason),
        semantic_ref: keep_nonblank(item.semantic_ref),
        semantic_summary: keep_nonblank(item.semantic_summary),
        semantic_tags: keep_nonblank_texts(item.semantic_tags),
        semantic_reason: keep_nonblank(item.semantic_reason),
        updated_at: now,
    }
}

/// The file name recorded in a clip's source video record, when it is there
/// and not blank.
pub open spec fn source_filename(source: Option<Seq<char>>) -> Option<Seq<char>> {
    match source {
        Some(t) => nonblank_opt(json_string_at(t, "filename"@)),
        None => None,
    }
}

/// The file name recorded in a clip's source video record.
pub fn filename_from_source_video(source: Option<&str>) -> (r: Option<String>)
    ensures
        opt_view(r) == source_filename(match source {
            Some(t) => Some(t@),
            None => None,
        }),
{
    match source {
        Some(t) => keep_nonblank(json_string_field(t, "filename")),
        None => None,
    }
}

/// The semantic note of one clip.
pub struct ProjectVideoClipSemanticItemV1 {
    pub id: String,
    pub sequence: u64,
    pub clip_key: String,
    pub composition_path: String,
    pub render_source_path: String,
    pub clip_id: String,
    pub track_id: String,
    pub scene: String,
    pub start_ms: u64,
    pub end_ms: u64,
    pub duration_ms: u64,
    pub source_video: Option<String>,
    pub summary_zh: String,
    pub tags: Vec<String>,
    pub rhythm: String,
    pub use_case: String,
    pub recommendation: String,
}

/// The id of a clip's semantic note.
pub open spec fn spec_semantic_id(composition_path: Seq<char>, clip_id: Seq<char>, start_ms: u64, end_ms: u64) -> Seq<char> {
    "sem-fnv1a64-"@ + hex16(spec_fnv1a64(encode_utf8(spec_clip_key(composition_path, clip_id, start_ms, end_ms))))
}

/// The scene a queued clip is noted under: its own, trimmed, or `片段 <n>`.
pub open spec fn queue_scene(scene: Seq<char>, index: usize) -> Seq<char> {
    if trim(scene).len() > 0 {
        trim(scene)
    } else {
        "片段 "@ + decimal(index as nat)
    }
}

/// The summary of a queued clip's note.
pub open spec fn queue_summary(index: usize, filename: Seq<char>, scene: Seq<char>, duration_text: Seq<char>, use_case: Seq<char>) -> Seq<char> {
    "第 "@ + decimal(index as nat) + " 段来自 "@ + filename + "，聚焦“"@ + scene + "”，时长 "@ + duration_text + "，适合承担"@
        + use_case + "。"@
}

/// The recommendation of a queued clip's note.
pub open spec fn queue_recommendation(scene: Seq<char>, rhythm: Seq<char>, use_case: Seq<char>) -> Seq<char> {
    "语义理由：这段的核心内容是“"@ + scene + "”，节奏判断为"@ + rhythm + "，建议用作"@ + use_case + "。"@
}

/// `s` is the semantic note of queue item `item`, the `index`-th clip, with
/// `duration_text` the printed length of the clip.
pub open spec fn is_queue_semantic(
    s: ProjectVideoClipSemanticItemV1,
    item: ProjectVideoClipQueueItemV1,
    index: usize,
    duration_text: Seq<char>,
) -> bool {
    let duration = spec_clip_duration(item.duration_ms, item.start_ms, item.end_ms);
    let filename = match source_filename(opt_view(item.source_video)) {
        Some(f) => f,
        None => "项目视频"@,
    };
    let scene = queue_scene(item.scene@, index);
    let use_case = spec_use_case(unicode_lowercase(scene), index);
    let rhythm = spec_rhythm(duration);
    &&& s.id@ == spec_semantic_id(item.composition_path@, item.clip_id@, item.start_ms, item.end_ms)
    &&& s.sequence == index
    &&& s.clip_key@ == spec_clip_key(item.composition_path@, item.clip_id@, item.start_ms, item.end_ms)
    &&& s.composition_path@ == item.composition_path@
    &&& s.render_source_path@ == item.render_source_path@
    &&& s.clip_id@ == item.clip_id@
    &&& s.track_id@ == item.track_id@
    &&& s.scene@ == scene
    &&& s.start_ms == item.start_ms
    &&& s.end_ms == item.end_ms
    &&& s.duration_ms == duration
    &&& opt_view(s.source_video) == opt_view(item.source_video)
    &&& s.summary_zh@ == queue_summary(index, filename, scene, duration_text, use_case)
    &&& texts(s.tags@) == spec_tags(unicode_lowercase(scene + " "@ + filename), duration, index)
    &&& s.rhythm@ == rhythm
    &&& s.use_case@ == use_case
    &&& s.recommendation@ == queue_recommendation(scene, rhythm, use_case)
}

/// The semantic note of a queued clip. `duration_text` is the clip's length
/// as the notes print it (seconds with one decimal).
pub fn semantic_from_queue_item(item: &ProjectVideoClipQueueItemV1, index: usize, duration_text: &str) -> (s: ProjectVideoClipSemanticItemV1)
    ensures
        is_queue_semantic(s, *item, index, duration_text@),
{
    let duration_ms = clip_duration(item.duration_ms, item.start_ms, item.end_ms);
    let source = match &item.source_video {
        Some(t) => Some(t.as_str()),
        None => None,
    };
    let filename = match filename_from_source_video(source) {
        Some(f) => f,
        None => lit("项目视频"),
    };
    let scene_chars = chars_of(item.scene.as_str());
    let scene_trim = trim_chars(scene_chars.as_slice());
    let scene = if scene_trim.len() > 0 {
        string_from_chars(scene_trim.as_slice())
    } else {
        let mut t = lit("片段 ");
        let n = decimal_string(index as u64);
        t.append(n.as_str());
        t
    };
    let rhythm = rhythm_for_duration(duration_ms);
    let use_case = use_case_for(scene.as_str(), index);
    let tags = tags_for(scene.as_str(), filename.as_str(), duration_ms, index);
    let mut summary = lit("第 ");
    let n = decimal_string(index as u64);
    summary.append(n.as_str());
    summary.append(" 段来自 ");
    summary.append(filename.as_str());
    summary.append("，聚焦“");
    summary.append(scene.as_str());
    summary.append("”，时长 ");
    summary.append(duration_text);
    summary.append("，适合承担");
    summary.append(use_case.as_str());
    summary.append("。");
    let mut recommendation = lit("语义理由：这段的核心内容是“");
    recommendation.append(scene.as_str());
    recommendation.append("”，节奏判断为");
    recommendation.append(rhythm.as_str());
    recommendation.append("，建议用作");
    recommendation.append(use_case.as_str());
    recommendation.append("。");
    ProjectVideoClipSemanticItemV1 {
        id: semantic_id(item.composition_path.as_str(), item.clip_id.as_str(), item.start_ms, item.end_ms),
        sequence: index as u64,
        clip_key: clip_semantic_key(item.composition_path.as_str(), item.clip_id.as_str(), item.start_ms, item.end_ms),
        composition_path: copy_text(&item.composition_path),
        render_source_path: copy_text(&item.render_source_path),
        clip_id: copy_text(&item.clip_id),
        track_id: copy_text(&item.track_id),
        scene,
        start_ms: item.start_ms,
        end_ms: item.end_ms,
        duration_ms,
        source_video: copy_opt(&item.source_video),
        summary_zh: summary,
        tags,
        rhythm,
        use_case,
        recommendation,
    }
}

/// A video artifact of the project, as the clip planners read it.
pub struct VideoCandidate {
    pub artifact_id: String,
    pub title: String,
    pub source_path: String,
    pub filename: String,
    pub duration_ms: u64,
    pub width: u64,
    pub height: u64,
    pub composition_path: String,
}

/// The `video_import` record of an artifact's provenance, when the
/// artifact is a video and that record is a JSON object.
pub open spec fn video_import_of(a: ArtifactRefV1) -> Option<Seq<char>> {
    if a.kind == ArtifactKind::Video && a.provenance is Some {
        match json_value_at(a.provenance.unwrap()@, "video_import"@) {
            Some(imp) => if json_kind_of(imp) == Some(JsonKind::Object) {
                Some(imp)
            } else {
                None
            },
            None => None,
        }
    } else {
        None
    }
}

/// The composition a video artifact is planned from: the import record's
/// `composition_path`, else the artifact's first output.
pub open spec fn candidate_composition(a: ArtifactRefV1, imp: Seq<char>) -> Option<Seq<char>> {
    match json_string_at(imp, "composition_path"@) {
        Some(c) => Some(c),
        None => if a.output_refs@.len() > 0 {
            Some(a.output_refs@[0]@)
        } else {
            None
        },
    }
}

/// Whether the artifact `a` is a video that the clip planners can use.
pub open spec fn has_video_candidate(a: ArtifactRefV1) -> bool {
    video_import_of(a) matches Some(imp) && candidate_composition(a, imp) is Some
}

pub open spec fn u64_or_zero(v: Option<u64>) -> u64 {
    match v {
        Some(n) => n,
        None => 0,
    }
}

/// `c` is the candidate read from the video artifact `a`: its id, title and
/// source, and from the import record the file name (`video` when there is
/// none), the length and size (0 when absent) and the composition.
pub open spec fn is_candidate_of(a: ArtifactRefV1, c: VideoCandidate) -> bool {
    video_import_of(a) matches Some(imp) && {
        &&& c.artifact_id@ == a.id@
        &&& c.title@ == a.title@
        &&& c.source_path@ == a.source_path@
        &&& c.filename@ == (match json_string_at(imp, "filename"@) {
            Some(f) => f,
            None => "video"@,
        })
        &&& c.duration_ms == u64_or_zero(json_u64_at(imp, "duration_ms"@))
        &&& c.width == u64_or_zero(json_u64_at(imp, "width"@))
        &&& c.height == u64_or_zero(json_u64_at(imp, "height"@))
        &&& candidate_composition(a, imp) == Some(c.composition_path@)
    }
}

/// Reads the planning candidate of a project artifact: `None` unless it is
/// a video with a `video_import` object and a composition to plan from.
pub fn video_candidate(a: &ArtifactRefV1) -> (r: Option<VideoCandidate>)
    ensures
        r is Some <==> has_video_candidate(*a),
        r matches Some(c) ==> is_candidate_of(*a, c),
{
    match a.kind {
        ArtifactKind::Video => {},
        _ => return None,
    }
    let p = match &a.provenance {
        Some(p) => p,
        None => return None,
    };
    let imp = match json_value_field(p.as_str(), "video_import") {
        Some(i) => i,
        None => return None,
    };
    match json_kind(imp.as_str()) {
        Some(JsonKind::Object) => {},
        _ => return None,
    }
    let composition_path = match json_string_field(imp.as_str(), "composition_path") {
        Some(c) => c,
        None => if a.output_refs.len() > 0 {
            copy_text(&a.output_refs[0])
        } else {
            return None;
        },
    };
    let filename = match json_string_field(imp.as_str(), "filename") {
        Some(f) => f,
        None => lit("video"),
    };
    let duration_ms = match json_u64_field(imp.as_str(), "duration_ms") {
        Some(n) => n,
        None => 0,
    };
    let width = match json_u64_field(imp.as_str(), "width") {
        Some(n) => n,
        None => 0,
    };
    let height = match json_u64_field(imp.as_str(), "height") {
        Some(n) => n,
        None => 0,
    };
    Some(VideoCandidate {
        artifact_id: copy_text(&a.id),
        title: copy_text(&a.title),
        source_path: copy_text(&a.source_path),
        filename,
        duration_ms,
        width,
        height,
        composition_path,
    })
}

/// The indices of the artifacts among the first `n` that give a candidate,
/// in registry order.
pub open spec fn candidate_indices(arts: Seq<ArtifactRefV1>, n: int) -> Seq<int>
    decreases n,
{
    if n <= 0 {
        Seq::empty()
    } else if has_video_candidate(arts[n - 1]) {
        candidate_indices(arts, n - 1).push(n - 1)
    } else {
        candidate_indices(arts, n - 1)
    }
}

/// `u` holds the candidates of `arts` in registry order.
pub open spec fn collected_candidates(arts: Seq<ArtifactRefV1>, u: Seq<VideoCandidate>) -> bool {
    let idx = candidate_indices(arts, arts.len() as int);
    &&& u.len() == idx.len()
    &&& forall|k: int| 0 <= k < u.len() ==> is_candidate_of(arts[idx[k]], #[trigger] u[k])
}

/// The clip planners' videos: the candidates of the registry, ordered by
/// file name and then artifact id, keeping registry order between equals.
pub fn video_candidates(artifacts: &[ArtifactRefV1]) -> (r: Vec<VideoCandidate>)
    ensures
        exists|u: Seq<VideoCandidate>|
            collected_candidates(artifacts@, u) && r@ == take_in_order(u, stable_order(u, u.len())),
{
    let mut u: Vec<VideoCandidate> = Vec::new();
    let mut i: usize = 0;
    while i < artifacts.len()
        invariant
            i <= artifacts.len(),
            u.len() == candidate_indices(artifacts@, i as int).len(),
            forall|k: int|
                0 <= k < u.len() ==> is_candidate_of(
                    artifacts@[candidate_indices(artifacts@, i as int)[k]],
                    #[trigger] u@[k],
                ),
        decreases artifacts.len() - i,
    {
        match video_candidate(&artifacts[i]) {
            Some(c) => {
                u.push(c);
            },
            None => {},
        }
        i = i + 1;
    }
    let ghost g = u@;
    let r = sort_video_candidates(u);
    assert(collected_candidates(artifacts@, g));
    r
}

/// The length of the clip taken from a video: its length (at least 1 ms),
/// but at most 1.8 s.
pub open spec fn window_length(duration_ms: u64) -> u64 {
    let source: u64 = if duration_ms >= 1 {
        duration_ms
    } else {
        1
    };
    if source < 1800 {
        source
    } else {
        1800
    }
}

/// A video's length, at least 1 ms.
pub open spec fn source_length(duration_ms: u64) -> u64 {
    if duration_ms >= 1 {
        duration_ms
    } else {
        1
    }
}

fn window(duration_ms: u64) -> (r: (u64, u64))
    ensures
        r.0 == source_length(duration_ms),
        r.1 == window_length(duration_ms),
        1 <= r.1 <= r.0,
{
    let source = if duration_ms >= 1 {
        duration_ms
    } else {
        1
    };
    let long = if source < 1800 {
        source
    } else {
        1800
    };
    let short = if source < 1000 {
        source
    } else {
        1000
    };
    let target = if long >= short {
        long
    } else {
        short
    };
    (source, target)
}

/// `s` is the semantic note of the `index`-th clip, taken from `video` not
/// yet in the queue: the opening clip from its start, later ones from its
/// end.
pub open spec fn is_video_semantic(s: ProjectVideoClipSemanticItemV1, video: VideoCandidate, index: usize, duration_text: Seq<char>) -> bool {
    let source = source_length(video.duration_ms);
    let length = window_length(video.duration_ms);
    let start: u64 = if index == 1 {
        0
    } else {
        (source - length) as u64
    };
    let end: u64 = (start + length) as u64;
    let scene = video.title@ + " · 项目视频片段"@;
    let use_case = spec_use_case(unicode_lowercase(scene), index);
    &&& s.id@ == spec_semantic_id(video.composition_path@, "source"@, start, end)
    &&& s.sequence == index
    &&& s.clip_key@ == spec_clip_key(video.composition_path@, "source"@, start, end)
    &&& s.composition_path@ == video.composition_path@
    &&& s.render_source_path@ == Seq::<char>::empty()
    &&& s.clip_id@ == "source"@
    &&& s.track_id@ == "video"@
    &&& s.scene@ == scene
    &&& s.start_ms == start
    &&& s.end_ms == end
    &&& s.duration_ms == length
    &&& opt_view(s.source_video) == Some(
        video_source_text(
            video.artifact_id@,
            video.source_path@,
            video.filename@,
            video.duration_ms,
            video.width,
            video.height,
        ),
    )
    &&& s.summary_zh@ == "第 "@ + decimal(index as nat) + " 段来自 "@ + video.filename@ + "，基于项目视频元数据抽取 "@
        + duration_text + " 片段，适合承担"@ + use_case + "。"@
    &&& texts(s.tags@) == spec_tags(unicode_lowercase(scene + " "@ + video.filename@), length, index)
    &&& s.rhythm@ == spec_rhythm(length)
    &&& s.use_case@ == use_case
    &&& s.recommendation@ == "语义理由："@ + video.filename@ + " 是尚未进入队列的项目素材，可作为"@ + use_case
        + "补充方案覆盖面。"@
}

/// The semantic note of a clip taken from a project video that the queue
/// does not use yet. `duration_text` is the clip's length as the notes print
/// it (seconds with one decimal).
pub fn semantic_from_video(video: &VideoCandidate, index: usize, duration_text: &str) -> (s: ProjectVideoClipSemanticItemV1)
    ensures
        is_video_semantic(s, *video, index, duration_text@),
{
    let (source, length) = window(video.duration_ms);
    let start_ms = if index == 1 {
        0
    } else {
        source - length
    };
    let end_ms = start_ms + length;
    let mut scene = copy_text(&video.title);
    scene.append(" · 项目视频片段");
    let rhythm = rhythm_for_duration(length);
    let use_case = use_case_for(scene.as_str(), index);
    let tags = tags_for(scene.as_str(), video.filename.as_str(), length, index);
    let mut summary = lit("第 ");
    let n = decimal_string(index as u64);
    summary.append(n.as_str());
    summary.append(" 段来自 ");
    summary.append(video.filename.as_str());
    summary.append("，基于项目视频元数据抽取 ");
    summary.append(duration_text);
    summary.append(" 片段，适合承担");
    summary.append(use_case.as_str());
    summary.append("。");
    let mut recommendation = lit("语义理由：");
    recommendation.append(video.filename.as_str());
    recommendation.append(" 是尚未进入队列的项目素材，可作为");
    recommendation.append(use_case.as_str());
    recommendation.append("补充方案覆盖面。");
    let source_video = video_source_json(
        video.artifact_id.as_str(),
        video.source_path.as_str(),
        video.filename.as_str(),
        video.duration_ms,
        video.width,
        video.height,
    );
    ProjectVideoClipSemanticItemV1 {
        id: semantic_id(video.composition_path.as_str(), "source", start_ms, end_ms),
        sequence: index as u64,
        clip_key: clip_semantic_key(video.composition_path.as_str(), "source", start_ms, end_ms),
        composition_path: copy_text(&video.composition_path),
        render_source_path: String::new(),
        clip_id: lit("source"),
        track_id: lit("video"),
        scene,
        start_ms,
        end_ms,
        duration_ms: length,
        source_video: Some(source_video),
        summary_zh: summary,
        tags,
        rhythm,
        use_case,
        recommendation,
    }
}

/// Semantic notes read from disk: renumbered from 1 in order, each with a
/// clip key (derived when blank) and a length at least its span.
pub fn normalize_semantic_items(items: Vec<ProjectVideoClipSemanticItemV1>) -> (r: Vec<ProjectVideoClipSemanticItemV1>)
    requires
        items.len() < u64::MAX,
    ensures
        r.len() == items.len(),
        forall|i: int|
            0 <= i < r.len() ==> {
                let a = #[trigger] r@[i];
                let b = items@[i];
                &&& a.sequence == i + 1
                &&& a.duration_ms == spec_clip_duration(b.duration_ms, b.start_ms, b.end_ms)
                &&& trim(b.clip_key@).len() == 0 ==> a.clip_key@ == spec_clip_key(
                    b.composition_path@,
                    b.clip_id@,
                    b.start_ms,
                    b.end_ms,
                )
                &&& trim(b.clip_key@).len() > 0 ==> a.clip_key@ == b.clip_key@
                &&& a == ProjectVideoClipSemanticItemV1 {
                    sequence: a.sequence,
                    duration_ms: a.duration_ms,
                    clip_key: a.clip_key,
                    ..b
                }
            },
{
    let ghost orig = items@;
    let n = items.len();
    let mut rest = items;
    let mut r: Vec<ProjectVideoClipSemanticItemV1> = Vec::new();
    let mut i: usize = 0;
    while i < n
        invariant
            i <= n,
            n == orig.len(),
            n < u64::MAX,
            rest@ == orig.subrange(i as int, n as int),
            r.len() == i,
            forall|k: int|
                0 <= k < i ==> {
                    let a = #[trigger] r@[k];
                    let b = orig[k];
                    &&& a.sequence == k + 1
                    &&& a.duration_ms == spec_clip_duration(b.duration_ms, b.start_ms, b.end_ms)
                    &&& trim(b.clip_key@).len() == 0 ==> a.clip_key@ == spec_clip_key(
                        b.composition_path@,
                        b.clip_id@,
                        b.start_ms,
                        b.end_ms,
                    )
                    &&& trim(b.clip_key@).len() > 0 ==> a.clip_key@ == b.clip_key@
                    &&& a == ProjectVideoClipSemanticItemV1 {
                        sequence: a.sequence,
                        duration_ms: a.duration_ms,
                        clip_key: a.clip_key,
                        ..b
                    }
                },
        decreases n - i,
    {
        let mut item = rest.remove(0);
        proof {
            assert(item == orig[i as int]);
            assert(rest@ =~= orig.subrange(i + 1, n as int));
        }
        let key_chars = chars_of(item.clip_key.as_str());
        let key_trim = trim_chars(key_chars.as_slice());
        if key_trim.len() == 0 {
            item.clip_key = clip_semantic_key(item.composition_path.as_str(), item.clip_id.as_str(), item.start_ms, item.end_ms);
        }
        item.duration_ms = clip_duration(item.duration_ms, item.start_ms, item.end_ms);
        item.sequence = (i + 1) as u64;
        r.push(item);
        i = i + 1;
    }
    r
}

/// One clip of a suggested queue.
pub struct ProjectVideoClipSuggestionItemV1 {
    pub id: String,
    pub sequence: u64,
    pub composition_path: String,
    pub render_source_path: String,
    pub clip_id: String,
    pub track_id: String,
    pub scene: String,
    pub start_ms: u64,
    pub end_ms: u64,
    pub duration_ms: u64,
    pub source_video: Option<String>,
    pub reason: String,
    pub suggestion_id: String,
}

/// The id of the `index`-th suggested clip: `<suggestion>-NN`.
pub open spec fn suggestion_item_id(suggestion_id: Seq<char>, index: usize) -> Seq<char> {
    suggestion_id + "-"@ + two_digits(index as nat)
}

fn suggestion_item_id_text(suggestion_id: &str, index: usize) -> (s: String)
    ensures
        s@ == suggestion_item_id(suggestion_id@, index),
{
    let mut s = lit(suggestion_id);
    s.append("-");
    if index < 10 {
        s.append("0");
        proof {
            reveal_strlit("0");
            assert("0"@ =~= seq!['0']);
        }
    }
    let n = decimal_string(index as u64);
    s.append(n.as_str());
    proof {
        if index < 10 {
            assert(s@ =~= suggestion_id@ + "-"@ + (seq!['0'] + decimal(index as nat)));
        }
    }
    s
}

/// `s` suggests keeping queue item `item` as the `index`-th clip.
pub open spec fn is_queue_suggestion(s: ProjectVideoClipSuggestionItemV1, item: ProjectVideoClipQueueItemV1, suggestion_id: Seq<char>, index: usize) -> bool {
    let duration = spec_clip_duration(item.duration_ms, item.start_ms, item.end_ms);
    let end: u64 = if item.start_ms + duration > u64::MAX {
        u64::MAX
    } else {
        (item.start_ms + duration) as u64
    };
    &&& s.id@ == suggestion_item_id(suggestion_id, index)
    &&& s.sequence == index
    &&& s.composition_path@ == item.composition_path@
    &&& s.render_source_path@ == item.render_source_path@
    &&& s.clip_id@ == item.clip_id@
    &&& s.track_id@ == item.track_id@
    &&& s.scene@ == (if trim(item.scene@).len() == 0 {
        "建议片段 "@ + decimal(index as nat)
    } else {
        item.scene@
    })
    &&& s.start_ms == item.start_ms
    &&& s.end_ms == end
    &&& s.duration_ms == duration
    &&& opt_view(s.source_video) == opt_view(item.source_video)
    &&& s.reason@ == "保留持久化队列第 "@ + decimal(index as nat) + " 段，延续 PM 已经整理过的项目节奏。"@
    &&& s.suggestion_id@ == suggestion_id
}

/// Suggests keeping a queued clip, as the `index`-th clip.
pub fn suggestion_from_queue_item(item: &ProjectVideoClipQueueItemV1, suggestion_id: &str, index: usize) -> (s: ProjectVideoClipSuggestionItemV1)
    ensures
        is_queue_suggestion(s, *item, suggestion_id@, index),
{
    let duration_ms = clip_duration(item.duration_ms, item.start_ms, item.end_ms);
    let scene_chars = chars_of(item.scene.as_str());
    let scene_trim = trim_chars(scene_chars.as_slice());
    let scene = if scene_trim.len() == 0 {
        let mut t = lit("建议片段 ");
        let n = decimal_string(index as u64);
        t.append(n.as_str());
        t
    } else {
        copy_text(&item.scene)
    };
    let mut reason = lit("保留持久化队列第 ");
    let n = decimal_string(index as u64);
    reason.append(n.as_str());
    reason.append(" 段，延续 PM 已经整理过的项目节奏。");
    ProjectVideoClipSuggestionItemV1 {
        id: suggestion_item_id_text(suggestion_id, index),
        sequence: index as u64,
        composition_path: copy_text(&item.composition_path),
        render_source_path: copy_text(&item.render_source_path),
        clip_id: copy_text(&item.clip_id),
        track_id: copy_text(&item.track_id),
        scene,
        start_ms: item.start_ms,
        end_ms: item.start_ms.saturating_add(duration_ms),
        duration_ms,
        source_video: copy_opt(&item.source_video),
        reason,
        suggestion_id: lit(suggestion_id),
    }
}

/// Where a suggested clip from a video starts: the opening clip at 0, a
/// later clip at a third of a long video, else so that it ends with the
/// video.
pub open spec fn suggestion_start(duration_ms: u64, index: usize) -> u64 {
    let source = source_length(duration_ms);
    let length = window_length(duration_ms);
    if index == 1 {
        0
    } else if source > 2 * length {
        (source / 3) as u64
    } else {
        (source - length) as u64
    }
}

/// `s` suggests a clip of `video`, which the queue does not use, as the
/// `index`-th clip.
pub open spec fn is_video_suggestion(s: ProjectVideoClipSuggestionItemV1, video: VideoCandidate, suggestion_id: Seq<char>, index: usize) -> bool {
    let source = source_length(video.duration_ms);
    let length = window_length(video.duration_ms);
    let start = suggestion_start(video.duration_ms, index);
    let end: u64 = if start + length <= source {
        (start + length) as u64
    } else {
        source
    };
    &&& s.id@ == suggestion_item_id(suggestion_id, index)
    &&& s.sequence == index
    &&& s.composition_path@ == video.composition_path@
    &&& s.render_source_path@ == Seq::<char>::empty()
    &&& s.clip_id@ == "source"@
    &&& s.track_id@ == "video"@
    &&& s.scene@ == video.title@ + " · AI 建议片段"@
    &&& s.start_ms == start
    &&& s.end_ms == end
    &&& s.duration_ms == (if end - start >= 1 {
        (end - start) as u64
    } else {
        1
    })
    &&& opt_view(s.source_video) == Some(
        video_source_text(
            video.artifact_id@,
            video.source_path@,
            video.filename@,
            video.duration_ms,
            video.width,
            video.height,
        ),
    )
    &&& s.reason@ == "补充项目中尚未覆盖的视频素材，让方案能体现多来源素材。"@
    &&& s.suggestion_id@ == suggestion_id
}

/// Suggests a clip of a project video, as the `index`-th clip.
pub fn suggestion_from_video(video: &VideoCandidate, suggestion_id: &str, index: usize) -> (s: ProjectVideoClipSuggestionItemV1)
    ensures
        is_video_suggestion(s, *video, suggestion_id@, index),
{
    let (source, length) = window(video.duration_ms);
    let start_ms = if index == 1 {
        0
    } else if source > length * 2 {
        source / 3
    } else {
        source - length
    };
    let sum = start_ms.saturating_add(length);
    let end_ms = if sum <= source {
        sum
    } else {
        source
    };
    let span = end_ms.saturating_sub(start_ms);
    let duration_ms = if span >= 1 {
        span
    } else {
        1
    };
    let mut scene = copy_text(&video.title);
    scene.append(" · AI 建议片段");
    let source_video = video_source_json(
        video.artifact_id.as_str(),
        video.source_path.as_str(),
        video.filename.as_str(),
        video.duration_ms,
        video.width,
        video.height,
    );
    ProjectVideoClipSuggestionItemV1 {
        id: suggestion_item_id_text(suggestion_id, index),
        sequence: index as u64,
        composition_path: copy_text(&video.composition_path),
        render_source_path: String::new(),
        clip_id: lit("source"),
        track_id: lit("video"),
        scene,
        start_ms,
        end_ms,
        duration_ms,
        source_video: Some(source_video),
        reason: lit("补充项目中尚未覆盖的视频素材，让方案能体现多来源素材。"),
        suggestion_id: lit(suggestion_id),
    }
}

/// Whether the pair `(a0, a1)` sorts before `(b0, b1)`.
pub fn text_pair_before(a0: &str, a1: &str, b0: &str, b1: &str) -> (r: bool)
    ensures
        r == pair_text_lt((a0@, a1@), (b0@, b1@)),
{
    let x0 = chars_of(a0);
    let y0 = chars_of(b0);
    if text_lt(x0.as_slice(), y0.as_slice()) {
        return true;
    }
    if !same_text(a0, b0) {
        return false;
    }
    let x1 = chars_of(a1);
    let y1 = chars_of(b1);
    text_lt(x1.as_slice(), y1.as_slice())
}

impl SortKey for VideoCandidate {
    /// Videos are taken by file name, then artifact id.
    open spec fn precedes(&self, other: &Self) -> bool {
        pair_text_lt((self.filename@, self.artifact_id@), (other.filename@, other.artifact_id@))
    }

    proof fn lemma_irreflexive(a: &Self) {
        lemma_pair_text_order((a.filename@, a.artifact_id@), (a.filename@, a.artifact_id@), (a.filename@, a.artifact_id@));
    }

    proof fn lemma_transitive(a: &Self, b: &Self, c: &Self) {
        lemma_pair_text_order((a.filename@, a.artifact_id@), (b.filename@, b.artifact_id@), (c.filename@, c.artifact_id@));
    }

    proof fn lemma_not_after_transitive(a: &Self, b: &Self, c: &Self) {
        lemma_pair_text_order((a.filename@, a.artifact_id@), (b.filename@, b.artifact_id@), (c.filename@, c.artifact_id@));
    }

    fn sorts_before(&self, other: &Self) -> (r: bool) {
        text_pair_before(
            self.filename.as_str(),
            self.artifact_id.as_str(),
            other.filename.as_str(),
            other.artifact_id.as_str(),
        )
    }
}

/// The project's videos in the order the planners take them: by file name,
/// then artifact id.
pub fn sort_video_candidates(videos: Vec<VideoCandidate>) -> (r: Vec<VideoCandidate>)
    ensures
        r@ == take_in_order(videos@, stable_order(videos@, videos@.len())),
        forall|k: int, l: int|
            #![trigger r@[k], r@[l]]
            0 <= k < l < r.len() ==> !pair_text_lt(
                (r@[l].filename@, r@[l].artifact_id@),
                (r@[k].filename@, r@[k].artifact_id@),
            ),
{
    let r = stable_sort(videos);
    assert forall|k: int, l: int|
        #![trigger r@[k], r@[l]]
        0 <= k < l < r.len() implies !pair_text_lt(
            (r@[l].filename@, r@[l].artifact_id@),
            (r@[k].filename@, r@[k].artifact_id@),
        ) by {
        assert(!r@[l].precedes(&r@[k]));
    }
    r
}

/// The videos a suggestion adds after the kept queue clips: in order, each
/// whose composition no suggested clip has yet, until there are 4 clips.
/// `comps` holds the compositions suggested so far, `count` their number.
pub open spec fn added_videos(comps: Seq<Seq<char>>, videos: Seq<VideoCandidate>, j: int, count: int) -> Seq<int>
    decreases videos.len() - j,
{
    if j >= videos.len() || j < 0 || count >= 4 {
        seq![]
    } else if comps.contains(videos[j].composition_path@) {
        added_videos(comps, videos, j + 1, count)
    } else {
        seq![j].add(added_videos(comps.push(videos[j].composition_path@), videos, j + 1, count + 1))
    }
}

pub open spec fn queue_compositions(queue: Seq<ProjectVideoClipQueueItemV1>) -> Seq<Seq<char>> {
    queue.map_values(|q: ProjectVideoClipQueueItemV1| q.composition_path@)
}

/// How many queue clips a suggestion keeps: the first 4.
pub open spec fn kept_count(n: nat) -> nat {
    if n < 4 {
        n
    } else {
        4
    }
}

proof fn lemma_added_videos_bounds(comps: Seq<Seq<char>>, videos: Seq<VideoCandidate>, j: int, count: int)
    requires
        0 <= j,
    ensures
        forall|m: int| 0 <= m < added_videos(comps, videos, j, count).len() ==> j <= #[trigger] added_videos(
            comps,
            videos,
            j,
            count,
        )[m] < videos.len(),
        count + added_videos(comps, videos, j, count).len() <= (if count < 4 {
            4
        } else {
            count
        }),
    decreases videos.len() - j,
{
    if j < videos.len() && count < 4 {
        if comps.contains(videos[j].composition_path@) {
            lemma_added_videos_bounds(comps, videos, j + 1, count);
        } else {
            lemma_added_videos_bounds(comps.push(videos[j].composition_path@), videos, j + 1, count + 1);
        }
    }
}

fn has_composition(items: &Vec<ProjectVideoClipSuggestionItemV1>, composition_path: &str) -> (r: bool)
    ensures
        r == items@.map_values(|s: ProjectVideoClipSuggestionItemV1| s.composition_path@).contains(composition_path@),
{
    let ghost comps = items@.map_values(|s: ProjectVideoClipSuggestionItemV1| s.composition_path@);
    let mut i: usize = 0;
    while i < items.len()
        invariant
            i <= items.len(),
            comps == items@.map_values(|s: ProjectVideoClipSuggestionItemV1| s.composition_path@),
            forall|k: int| 0 <= k < i ==> comps[k] != composition_path@,
        decreases items.len() - i,
    {
        if same_text(items[i].composition_path.as_str(), composition_path) {
            proof {
                assert(comps[i as int] == composition_path@);
            }
            return true;
        }
        i = i + 1;
    }
    false
}

/// Plans a suggested queue: the first 4 queued clips, kept in order, then
/// clips of the videos (in the order given) whose compositions are not
/// suggested yet, up to 4 clips in all.
pub fn plan_suggestions(
    queue: &[ProjectVideoClipQueueItemV1],
    videos: &[VideoCandidate],
    suggestion_id: &str,
) -> (r: Vec<ProjectVideoClipSuggestionItemV1>)
    ensures
        ({
            let kept = kept_count(queue@.len());
            let added = added_videos(queue_compositions(queue@).take(kept as int), videos@, 0, kept as int);
            &&& r.len() == kept + added.len()
            &&& forall|i: int| 0 <= i < kept ==> is_queue_suggestion(#[trigger] r@[i], queue@[i], suggestion_id@, (i + 1) as usize)
            &&& forall|m: int|
                0 <= m < added.len() ==> is_video_suggestion(
                    #[trigger] r@[kept + m],
                    videos@[added[m]],
                    suggestion_id@,
                    (kept + m + 1) as usize,
                )
        }),
{
    let ghost kept = kept_count(queue@.len());
    let ghost qc = queue_compositions(queue@).take(kept as int);
    let mut items: Vec<ProjectVideoClipSuggestionItemV1> = Vec::new();
    let mut i: usize = 0;
    while i < queue.len() && i < 4
        invariant
            i <= queue.len(),
            i <= 4,
            kept == kept_count(queue@.len()),
            items.len() == i,
            forall|k: int| 0 <= k < i ==> is_queue_suggestion(#[trigger] items@[k], queue@[k], suggestion_id@, (k + 1) as usize),
            items@.map_values(|s: ProjectVideoClipSuggestionItemV1| s.composition_path@) == queue_compositions(queue@).take(i as int),
        decreases queue.len() - i,
    {
        let s = suggestion_from_queue_item(&queue[i], suggestion_id, i + 1);
        let ghost before = items@;
        items.push(s);
        proof {
            assert(items@.map_values(|s: ProjectVideoClipSuggestionItemV1| s.composition_path@) =~= queue_compositions(
                queue@,
            ).take(i + 1));
        }
        i = i + 1;
    }
    assert(i == kept);
    proof {
        lemma_added_videos_bounds(qc, videos@, 0, kept as int);
    }
    let ghost added = added_videos(qc, videos@, 0, kept as int);
    let mut j: usize = 0;
    let ghost mut taken: Seq<int> = seq![];
    while j < videos.len()
        invariant_except_break
            j <= videos.len(),
            kept <= items.len(),
            kept <= 4,
            items.len() == kept + taken.len(),
            taken + added_videos(
                items@.map_values(|s: ProjectVideoClipSuggestionItemV1| s.composition_path@),
                videos@,
                j as int,
                items.len() as int,
            ) == added,
            forall|k: int| 0 <= k < kept ==> is_queue_suggestion(#[trigger] items@[k], queue@[k], suggestion_id@, (k + 1) as usize),
            forall|m: int|
                0 <= m < taken.len() ==> is_video_suggestion(
                    #[trigger] items@[kept + m],
                    videos@[taken[m]],
                    suggestion_id@,
                    (kept + m + 1) as usize,
                ),
            forall|m: int| 0 <= m < taken.len() ==> 0 <= #[trigger] taken[m] < videos.len(),
        ensures
            items.len() == kept + added.len(),
            forall|k: int| 0 <= k < kept ==> is_queue_suggestion(#[trigger] items@[k], queue@[k], suggestion_id@, (k + 1) as usize),
            forall|m: int|
                0 <= m < added.len() ==> is_video_suggestion(
                    #[trigger] items@[kept + m],
                    videos@[added[m]],
                    suggestion_id@,
                    (kept + m + 1) as usize,
                ),
        decreases videos.len() - j,
    {
        let ghost comps = items@.map_values(|s: ProjectVideoClipSuggestionItemV1| s.composition_path@);
        if items.len() >= 4 {
            proof {
                assert(taken + Seq::<int>::empty() =~= taken);
            }
            break;
        }
        if has_composition(&items, videos[j].composition_path.as_str()) {
            j = j + 1;
            continue;
        }
        let n = items.len();
        let s = suggestion_from_video(&videos[j], suggestion_id, n + 1);
        let ghost prev = items@;
        items.push(s);
        proof {
            assert(items@.map_values(|s: ProjectVideoClipSuggestionItemV1| s.composition_path@) =~= comps.push(
                videos@[j as int].composition_path@,
            ));
            let t2 = taken.push(j as int);
            assert(t2 + added_videos(comps.push(videos@[j as int].composition_path@), videos@, j + 1, n + 1) =~= taken
                + added_videos(comps, videos@, j as int, n as int));
            assert forall|m: int| 0 <= m < t2.len() implies is_video_suggestion(
                #[trigger] items@[kept + m],
                videos@[t2[m]],
                suggestion_id@,
                (kept + m + 1) as usize,
            ) by {
                if m < taken.len() {
                    assert(items@[kept + m] == prev[kept + m]);
                }
            }
            taken = t2;
        }
        j = j + 1;
    }
    items
}

/// PM feedback recorded on one queued clip.
pub struct ProjectVideoClipFeedbackItemV1 {
    pub id: String,
    pub clip_key: String,
    pub queue_item_id: String,
    pub composition_path: String,
    pub render_source_path: String,
    pub clip_id: String,
    pub track_id: String,
    pub scene: String,
    pub start_ms: u64,
    pub end_ms: u64,
    pub duration_ms: u64,
    pub source_video: Option<String>,
    pub feedback: String,
    pub feedback_kind: String,
    pub recommendation_effect: String,
    pub created_at: u64,
    pub updated_at: u64,
}

/// The id of the feedback on a clip.
pub open spec fn spec_feedback_id(clip_key: Seq<char>) -> Seq<char> {
    "feedback-fnv1a64-"@ + hex16(spec_fnv1a64(encode_utf8(clip_key)))
}

/// `f` records `feedback` on queue item `item`.
pub open spec fn is_queue_feedback(
    f: ProjectVideoClipFeedbackItemV1,
    item: ProjectVideoClipQueueItemV1,
    feedback: Seq<char>,
    created_at: u64,
    updated_at: u64,
) -> bool {
    let key = spec_clip_key(item.composition_path@, item.clip_id@, item.start_ms, item.end_ms);
    &&& f.id@ == spec_feedback_id(key)
    &&& f.clip_key@ == key
    &&& f.queue_item_id@ == item.id@
    &&& f.composition_path@ == item.composition_path@
    &&& f.render_source_path@ == item.render_source_path@
    &&& f.clip_id@ == item.clip_id@
    &&& f.track_id@ == item.track_id@
    &&& f.scene@ == item.scene@
    &&& f.start_ms == item.start_ms
    &&& f.end_ms == item.end_ms
    &&& f.duration_ms == spec_clip_duration(item.duration_ms, item.start_ms, item.end_ms)
    &&& opt_view(f.source_video) == opt_view(item.source_video)
    &&& f.feedback@ == feedback
    &&& (f.feedback_kind@, f.recommendation_effect@) == spec_classify_feedback(feedback)
    &&& f.created_at == created_at
    &&& f.updated_at == updated_at
}

/// The feedback record of `feedback` on a queued clip.
pub fn feedback_from_queue_item(
    item: &ProjectVideoClipQueueItemV1,
    feedback: &str,
    created_at: u64,
    updated_at: u64,
) -> (f: ProjectVideoClipFeedbackItemV1)
    ensures
        is_queue_feedback(f, *item, feedback@, created_at, updated_at),
{
    let clip_key = queue_item_clip_key(item);
    let (feedback_kind, recommendation_effect) = classify_feedback(feedback);
    ProjectVideoClipFeedbackItemV1 {
        id: feedback_id(clip_key.as_str()),
        clip_key,
        queue_item_id: copy_text(&item.id),
        composition_path: copy_text(&item.composition_path),
        render_source_path: copy_text(&item.render_source_path),
        clip_id: copy_text(&item.clip_id),
        track_id: copy_text(&item.track_id),
        scene: copy_text(&item.scene),
        start_ms: item.start_ms,
        end_ms: item.end_ms,
        duration_ms: clip_duration(item.duration_ms, item.start_ms, item.end_ms),
        source_video: copy_opt(&item.source_video),
        feedback: lit(feedback),
        feedback_kind,
        recommendation_effect,
        created_at,
        updated_at,
    }
}

impl SortKey for ProjectVideoClipFeedbackItemV1 {
    /// Feedback is kept by queue item id, then clip key.
    open spec fn precedes(&self, other: &Self) -> bool {
        pair_text_lt((self.queue_item_id@, self.clip_key@), (other.queue_item_id@, other.clip_key@))
    }

    proof fn lemma_irreflexive(a: &Self) {
        lemma_pair_text_order((a.queue_item_id@, a.clip_key@), (a.queue_item_id@, a.clip_key@), (a.queue_item_id@, a.clip_key@));
    }

    proof fn lemma_transitive(a: &Self, b: &Self, c: &Self) {
        lemma_pair_text_order((a.queue_item_id@, a.clip_key@), (b.queue_item_id@, b.clip_key@), (c.queue_item_id@, c.clip_key@));
    }

    proof fn lemma_not_after_transitive(a: &Self, b: &Self, c: &Self) {
        lemma_pair_text_order((a.queue_item_id@, a.clip_key@), (b.queue_item_id@, b.clip_key@), (c.queue_item_id@, c.clip_key@));
    }

    fn sorts_before(&self, other: &Self) -> (r: bool) {
        text_pair_before(
            self.queue_item_id.as_str(),
            self.clip_key.as_str(),
            other.queue_item_id.as_str(),
            other.clip_key.as_str(),
        )
    }
}

/// The feedback records whose feedback text is not blank, in order.
pub open spec fn with_feedback(items: Seq<ProjectVideoClipFeedbackItemV1>) -> Seq<ProjectVideoClipFeedbackItemV1>
    decreases items.len(),
{
    if items.len() == 0 {
        seq![]
    } else if trim(items.last().feedback@).len() > 0 {
        with_feedback(items.drop_last()).push(items.last())
    } else {
        with_feedback(items.drop_last())
    }
}

/// `a` is feedback record `b` as it is kept: with an id (derived from the
/// clip key when blank), its class recomputed, and a length at least its
/// span.
pub open spec fn is_kept_feedback(a: ProjectVideoClipFeedbackItemV1, b: ProjectVideoClipFeedbackItemV1) -> bool {
    &&& trim(b.id@).len() == 0 ==> a.id@ == spec_feedback_id(b.clip_key@)
    &&& trim(b.id@).len() > 0 ==> a.id@ == b.id@
    &&& a.duration_ms == spec_clip_duration(b.duration_ms, b.start_ms, b.end_ms)
    &&& (a.feedback_kind@, a.recommendation_effect@) == spec_classify_feedback(b.feedback@)
    &&& a == ProjectVideoClipFeedbackItemV1 {
        id: a.id,
        duration_ms: a.duration_ms,
        feedback_kind: a.feedback_kind,
        recommendation_effect: a.recommendation_effect,
        ..b
    }
}

fn keep_feedback(item: ProjectVideoClipFeedbackItemV1) -> (r: ProjectVideoClipFeedbackItemV1)
    ensures
        is_kept_feedback(r, item),
{
    let mut item = item;
    let id_chars = chars_of(item.id.as_str());
    let id_trim = trim_chars(id_chars.as_slice());
    if id_trim.len() == 0 {
        item.id = feedback_id(item.clip_key.as_str());
    }
    let (kind, effect) = classify_feedback(item.feedback.as_str());
    item.feedback_kind = kind;
    item.recommendation_effect = effect;
    item.duration_ms = clip_duration(item.duration_ms, item.start_ms, item.end_ms);
    item
}

/// Feedback records as they are kept: those with feedback text, each fixed
/// up, ordered by queue item id then clip key, ties kept in order.
pub fn normalize_feedback_items(items: Vec<ProjectVideoClipFeedbackItemV1>) -> (r: Vec<ProjectVideoClipFeedbackItemV1>)
    ensures
        ({
            let kept = with_feedback(items@);
            let order = stable_order(kept, kept.len());
            &&& r.len() == kept.len()
            &&& forall|k: int| 0 <= k < r.len() ==> is_kept_feedback(#[trigger] r@[k], kept[order[k]])
            &&& forall|k: int, l: int|
                #![trigger r@[k], r@[l]]
                0 <= k < l < r.len() ==> !pair_text_lt(
                    (r@[l].queue_item_id@, r@[l].clip_key@),
                    (r@[k].queue_item_id@, r@[k].clip_key@),
                )
        }),
{
    let ghost orig = items@;
    let n = items.len();
    let mut rest = items;
    let mut fixed: Vec<ProjectVideoClipFeedbackItemV1> = Vec::new();
    let ghost mut kept_so_far: Seq<ProjectVideoClipFeedbackItemV1> = seq![];
    let mut i: usize = 0;
    while i < n
        invariant
            i <= n,
            n == orig.len(),
            rest@ == orig.subrange(i as int, n as int),
            kept_so_far == with_feedback(orig.take(i as int)),
            fixed.len() == kept_so_far.len(),
            forall|k: int| 0 <= k < fixed.len() ==> is_kept_feedback(#[trigger] fixed@[k], kept_so_far[k]),
        decreases n - i,
    {
        let item = rest.remove(0);
        proof {
            assert(item == orig[i as int]);
            assert(rest@ =~= orig.subrange(i + 1, n as int));
            assert(orig.take(i + 1).drop_last() =~= orig.take(i as int));
        }
        let fb = chars_of(item.feedback.as_str());
        let fb_trim = trim_chars(fb.as_slice());
        if fb_trim.len() > 0 {
            let k = keep_feedback(item);
            let ghost prev = fixed@;
            fixed.push(k);
            proof {
                kept_so_far = kept_so_far.push(orig[i as int]);
                assert forall|m: int| 0 <= m < fixed.len() implies is_kept_feedback(#[trigger] fixed@[m], kept_so_far[m]) by {
                    if m < prev.len() {
                        assert(fixed@[m] == prev[m]);
                    }
                }
            }
        }
        i = i + 1;
    }
    proof {
        assert(orig.take(n as int) =~= orig);
        let kept = with_feedback(orig);
        assert forall|a: int, b: int|
            0 <= a < kept.len() && 0 <= b < kept.len() implies fixed@[a].precedes(&fixed@[b]) == kept[a].precedes(
            &kept[b],
        ) by {
            assert(is_kept_feedback(fixed@[a], kept[a]));
            assert(is_kept_feedback(fixed@[b], kept[b]));
        }
        lemma_stable_order_same_keys(fixed@, kept, kept.len());
        lemma_stable_order_sorted(kept, kept.len());
    }
    let r = stable_sort(fixed);
    proof {
        let kept = with_feedback(orig);
        let order = stable_order(kept, kept.len());
        assert forall|k: int| 0 <= k < r.len() implies is_kept_feedback(#[trigger] r@[k], kept[order[k]]) by {
            assert(r@[k] == fixed@[order[k]]);
        }
        assert forall|k: int, l: int|
            #![trigger r@[k], r@[l]]
            0 <= k < l < r.len() implies !pair_text_lt(
                (r@[l].queue_item_id@, r@[l].clip_key@),
                (r@[k].queue_item_id@, r@[k].clip_key@),
            ) by {
            assert(!r@[l].precedes(&r@[k]));
        }
    }
    r
}

/// The first of the first `n` queue items with id `id`.
pub open spec fn first_with_id(queue: Seq<ProjectVideoClipQueueItemV1>, id: Seq<char>, n: int) -> Option<int>
    decreases n,
{
    if n <= 0 {
        None
    } else {
        match first_with_id(queue, id, n - 1) {
            Some(j) => Some(j),
            None => if queue[n - 1].id@ == id {
                Some(n - 1)
            } else {
                None
            },
        }
    }
}

/// Feedback record `f` is about the clip with key `key` or the queue item
/// `id`.
pub open spec fn about(f: ProjectVideoClipFeedbackItemV1, key: Seq<char>, id: Seq<char>) -> bool {
    f.clip_key@ == key || f.queue_item_id@ == id
}

/// When the first of the first `n` records about the clip was created.
pub open spec fn first_created(existing: Seq<ProjectVideoClipFeedbackItemV1>, key: Seq<char>, id: Seq<char>, n: int) -> Option<u64>
    decreases n,
{
    if n <= 0 {
        None
    } else {
        match first_created(existing, key, id, n - 1) {
            Some(c) => Some(c),
            None => if about(existing[n - 1], key, id) {
                Some(existing[n - 1].created_at)
            } else {
                None
            },
        }
    }
}

/// The records not about the clip, in order.
pub open spec fn not_about(existing: Seq<ProjectVideoClipFeedbackItemV1>, key: Seq<char>, id: Seq<char>) -> Seq<ProjectVideoClipFeedbackItemV1>
    decreases existing.len(),
{
    if existing.len() == 0 {
        seq![]
    } else if about(existing.last(), key, id) {
        not_about(existing.drop_last(), key, id)
    } else {
        not_about(existing.drop_last(), key, id).push(existing.last())
    }
}

proof fn lemma_first_with_id_stable(queue: Seq<ProjectVideoClipQueueItemV1>, id: Seq<char>, m: int, n: int)
    requires
        0 <= m <= n,
        first_with_id(queue, id, m) is Some,
    ensures
        first_with_id(queue, id, n) == first_with_id(queue, id, m),
    decreases n - m,
{
    if n > m {
        lemma_first_with_id_stable(queue, id, m, n - 1);
    }
}

proof fn lemma_first_with_id_bound(queue: Seq<ProjectVideoClipQueueItemV1>, id: Seq<char>, n: int)
    ensures
        first_with_id(queue, id, n) matches Some(j) ==> 0 <= j < n,
    decreases n,
{
    if n > 0 {
        lemma_first_with_id_bound(queue, id, n - 1);
    }
}

proof fn lemma_first_created_stable(existing: Seq<ProjectVideoClipFeedbackItemV1>, key: Seq<char>, id: Seq<char>, m: int, n: int)
    requires
        0 <= m <= n,
        first_created(existing, key, id, m) is Some,
    ensures
        first_created(existing, key, id, n) == first_created(existing, key, id, m),
    decreases n - m,
{
    if n > m {
        lemma_first_created_stable(existing, key, id, m, n - 1);
    }
}

/// The position of the first queue item with id `id`.
pub fn find_queue_item(queue: &[ProjectVideoClipQueueItemV1], id: &str) -> (r: Option<usize>)
    ensures
        as_int(r) == first_with_id(queue@, id@, queue@.len() as int),
{
    let mut i: usize = 0;
    while i < queue.len()
        invariant
            i <= queue.len(),
            first_with_id(queue@, id@, i as int) is None,
        decreases queue.len() - i,
    {
        if same_text(queue[i].id.as_str(), id) {
            proof {
                assert(first_with_id(queue@, id@, i + 1) == Some(i as int));
                lemma_first_with_id_stable(queue@, id@, i + 1, queue@.len() as int);
            }
            return Some(i);
        }
        i = i + 1;
    }
    None
}

/// The error when feedback names a queue item that is not in the queue.
pub open spec fn unknown_queue_item_message(id: Seq<char>) -> Seq<char> {
    "video clip feedback queue_item_id not found: "@ + id
}

/// Records PM feedback on a queued clip: the records about that clip (by
/// clip key or queue item id) are dropped, and, unless the feedback is
/// blank, a new record is added, keeping the first dropped record's
/// creation time. The result is then normalized like any stored feedback.
pub fn record_feedback_items(
    existing: Vec<ProjectVideoClipFeedbackItemV1>,
    queue: &[ProjectVideoClipQueueItemV1],
    queue_item_id: &str,
    feedback: &str,
    now: u64,
) -> (r: Result<Vec<ProjectVideoClipFeedbackItemV1>, String>)
    ensures
        match first_with_id(queue@, queue_item_id@, queue@.len() as int) {
            None => r matches Err(m) && m@ == unknown_queue_item_message(queue_item_id@),
            Some(qi) => r matches Ok(v) && {
                let item = queue@[qi];
                let key = spec_clip_key(item.composition_path@, item.clip_id@, item.start_ms, item.end_ms);
                let rest = not_about(existing@, key, queue_item_id@);
                let created = match first_created(existing@, key, queue_item_id@, existing@.len() as int) {
                    Some(c) => c,
                    None => now,
                };
                &&& trim(feedback@).len() == 0 ==> v@ == rest
                &&& trim(feedback@).len() > 0 ==> {
                    &&& v.len() == rest.len() + 1
                    &&& v@.drop_last() == rest
                    &&& is_queue_feedback(v@.last(), item, trim(feedback@), created, now)
                }
            },
        },
{
    let found = find_queue_item(queue, queue_item_id);
    let qi = match found {
        Some(q) => q,
        None => {
            let mut m = lit("video clip feedback queue_item_id not found: ");
            m.append(queue_item_id);
            return Err(m);
        },
    };
    proof {
        lemma_first_with_id_bound(queue@, queue_item_id@, queue@.len() as int);
    }
    let item = &queue[qi];
    let key = queue_item_clip_key(item);
    let ghost orig = existing@;
    let n = existing.len();
    let mut created: Option<u64> = None;
    let mut rest = existing;
    let mut kept: Vec<ProjectVideoClipFeedbackItemV1> = Vec::new();
    let mut j: usize = 0;
    while j < n
        invariant
            j <= n,
            n == orig.len(),
            rest@ == orig.subrange(j as int, n as int),
            kept@ == not_about(orig.take(j as int), key@, queue_item_id@),
            created == first_created(orig, key@, queue_item_id@, j as int),
        decreases n - j,
    {
        let f = rest.remove(0);
        proof {
            assert(f == orig[j as int]);
            assert(rest@ =~= orig.subrange(j + 1, n as int));
            assert(orig.take(j + 1).drop_last() =~= orig.take(j as int));
        }
        let is_about = same_text(f.clip_key.as_str(), key.as_str()) || same_text(f.queue_item_id.as_str(), queue_item_id);
        if is_about {
            if created.is_none() {
                created = Some(f.created_at);
            }
        } else {
            kept.push(f);
        }
        j = j + 1;
    }
    proof {
        assert(orig.take(n as int) =~= orig);
    }
    let fb_chars = chars_of(feedback);
    let fb_trim = trim_chars(fb_chars.as_slice());
    if fb_trim.len() > 0 {
        let created_at = match created {
            Some(c) => c,
            None => now,
        };
        let text = string_from_chars(fb_trim.as_slice());
        let f = feedback_from_queue_item(item, text.as_str(), created_at, now);
        let ghost before = kept@;
        kept.push(f);
        proof {
            assert(kept@.drop_last() =~= before);
        }
    }
    Ok(kept)
}

/// The length of the clip the planners take from a video of the given
/// length.
pub fn video_clip_length(duration_ms: u64) -> (r: u64)
    ensures
        r == window_length(duration_ms),
{
    let (_source, length) = window(duration_ms);
    length
}

/// The semantic notes of a project's clips: one per queued clip when the
/// queue has any, else one per project video (in the order given).
/// `duration_texts[i]` is the printed length of the `i`-th clip.
pub fn analyze_clip_semantics(
    queue: &[ProjectVideoClipQueueItemV1],
    videos: &[VideoCandidate],
    duration_texts: &[String],
) -> (r: Vec<ProjectVideoClipSemanticItemV1>)
    requires
        queue.len() > 0 ==> duration_texts.len() == queue.len(),
        queue.len() == 0 ==> duration_texts.len() == videos.len(),
    ensures
        queue.len() > 0 ==> r.len() == queue.len() && forall|i: int|
            0 <= i < r.len() ==> is_queue_semantic(#[trigger] r@[i], queue@[i], (i + 1) as usize, duration_texts@[i]@),
        queue.len() == 0 ==> r.len() == videos.len() && forall|i: int|
            0 <= i < r.len() ==> is_video_semantic(#[trigger] r@[i], videos@[i], (i + 1) as usize, duration_texts@[i]@),
{
    let mut r: Vec<ProjectVideoClipSemanticItemV1> = Vec::new();
    if queue.len() > 0 {
        let mut i: usize = 0;
        while i < queue.len()
            invariant
                i <= queue.len(),
                duration_texts.len() == queue.len(),
                r.len() == i,
                forall|k: int|
                    0 <= k < i ==> is_queue_semantic(#[trigger] r@[k], queue@[k], (k + 1) as usize, duration_texts@[k]@),
            decreases queue.len() - i,
        {
            let s = semantic_from_queue_item(&queue[i], i + 1, duration_texts[i].as_str());
            r.push(s);
            i = i + 1;
        }
    } else {
        let mut i: usize = 0;
        while i < videos.len()
            invariant
                i <= videos.len(),
                duration_texts.len() == videos.len(),
                r.len() == i,
                forall|k: int|
                    0 <= k < i ==> is_video_semantic(#[trigger] r@[k], videos@[k], (k + 1) as usize, duration_texts@[k]@),
            decreases videos.len() - i,
        {
            let s = semantic_from_video(&videos[i], i + 1, duration_texts[i].as_str());
            r.push(s);
            i = i + 1;
        }
    }
    r
}

/// A suggested clip queue.
pub struct ProjectVideoClipSuggestionV1 {
    pub schema_version: String,
    pub project_id: String,
    pub project_name: String,
    pub suggestion_id: String,
    pub planner: String,
    pub generated_at: u64,
    pub source_video_count: usize,
    pub existing_queue_count: usize,
    pub rationale: String,
    pub items: Vec<ProjectVideoClipSuggestionItemV1>,
}

/// Why a suggestion looks the way it does: built from the videos alone when
/// the queue is empty, else keeping the PM's queue.
pub open spec fn suggestion_rationale(queue_empty: bool) -> Seq<char> {
    if queue_empty {
        "基于项目视频素材自动选择短片段，先形成可采用的线性剪辑队列。"@
    } else {
        "保留已持久化队列的顺序作为 PM 已认可上下文，并补充项目中尚未覆盖的视频素材。"@
    }
}

/// Suggests a clip queue for a project from its queue and its videos (in
/// planning order).
pub fn suggest_video_clip_queue(
    project_id: &str,
    project_name: &str,
    queue: &[ProjectVideoClipQueueItemV1],
    videos: &[VideoCandidate],
    suggestion_id: &str,
    generated_at: u64,
) -> (r: ProjectVideoClipSuggestionV1)
    ensures
        r.schema_version@ == "capy.project-video-clip-suggestion.v1"@,
        r.project_id@ == project_id@,
        r.project_name@ == project_name@,
        r.suggestion_id@ == suggestion_id@,
        r.planner@ == "local-deterministic-video-clip-planner"@,
        r.generated_at == generated_at,
        r.source_video_count == videos.len(),
        r.existing_queue_count == queue.len(),
        r.rationale@ == suggestion_rationale(queue.len() == 0),
        ({
            let kept = kept_count(queue@.len());
            let added = added_videos(queue_compositions(queue@).take(kept as int), videos@, 0, kept as int);
            &&& r.items.len() == kept + added.len()
            &&& forall|i: int|
                0 <= i < kept ==> is_queue_suggestion(#[trigger] r.items@[i], queue@[i], suggestion_id@, (i + 1) as usize)
            &&& forall|m: int|
                0 <= m < added.len() ==> is_video_suggestion(
                    #[trigger] r.items@[kept + m],
                    videos@[added[m]],
                    suggestion_id@,
                    (kept + m + 1) as usize,
                )
        }),
{
    let items = plan_suggestions(queue, videos, suggestion_id);
    let rationale = if queue.len() == 0 {
        lit("基于项目视频素材自动选择短片段，先形成可采用的线性剪辑队列。")
    } else {
        lit("保留已持久化队列的顺序作为 PM 已认可上下文，并补充项目中尚未覆盖的视频素材。")
    };
    ProjectVideoClipSuggestionV1 {
        schema_version: lit("capy.project-video-clip-suggestion.v1"),
        project_id: lit(project_id),
        project_name: lit(project_name),
        suggestion_id: lit(suggestion_id),
        planner: lit("local-deterministic-video-clip-planner"),
        generated_at,
        source_video_count: videos.len(),
        existing_queue_count: queue.len(),
        rationale,
        items,
    }
}

} // verus!
