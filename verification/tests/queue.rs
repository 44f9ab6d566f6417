use capy_core::project::basis::video_clip_suggestion_id;
use capy_core::project::queue::{
    analyze_clip_semantics, feedback_from_queue_item, filename_from_source_video, find_queue_item,
    keep_nonblank_texts, normalize_feedback_items, normalize_items, normalize_manifest_item,
    normalize_semantic_items,
    plan_suggestions, queue_item_clip_key, record_feedback_items,
    required_path, semantic_from_queue_item, semantic_from_video, sort_video_candidates,
    suggest_video_clip_queue, suggestion_from_queue_item, suggestion_from_video,
    text_pair_before, video_candidate, video_candidates, video_clip_length, ProjectVideoClipFeedbackItemV1, ProjectVideoClipQueueItemV1,
    VideoCandidate,
};

fn queue_item(id: &str, composition: &str, scene: &str, start: u64, end: u64) -> ProjectVideoClipQueueItemV1 {
    ProjectVideoClipQueueItemV1 {
        id: id.to_string(),
        sequence: 9,
        composition_path: composition.to_string(),
        render_source_path: String::new(),
        clip_id: "source".to_string(),
        track_id: "video".to_string(),
        scene: scene.to_string(),
        start_ms: start,
        end_ms: end,
        duration_ms: end - start,
        source_video: Some("{\"filename\":\"camera-a-wide.webm\"}".to_string()),
        suggestion_id: None,
        suggestion_reason: None,
        semantic_ref: None,
        semantic_summary: None,
        semantic_tags: Vec::new(),
        semantic_reason: None,
        updated_at: 0,
    }
}

fn video(id: &str, filename: &str, composition: &str, duration: u64) -> VideoCandidate {
    VideoCandidate {
        artifact_id: id.to_string(),
        title: filename.to_string(),
        source_path: format!("media/{filename}"),
        filename: filename.to_string(),
        duration_ms: duration,
        width: 640,
        height: 360,
        composition_path: composition.to_string(),
    }
}

fn feedback_item(id: &str, queue_item_id: &str, clip_key: &str, feedback: &str, created_at: u64) -> ProjectVideoClipFeedbackItemV1 {
    ProjectVideoClipFeedbackItemV1 {
        id: id.to_string(),
        clip_key: clip_key.to_string(),
        queue_item_id: queue_item_id.to_string(),
        composition_path: "c.json".to_string(),
        render_source_path: String::new(),
        clip_id: "source".to_string(),
        track_id: "video".to_string(),
        scene: "scene".to_string(),
        start_ms: 0,
        end_ms: 1000,
        duration_ms: 0,
        source_video: None,
        feedback: feedback.to_string(),
        feedback_kind: String::new(),
        recommendation_effect: String::new(),
        created_at,
        updated_at: created_at,
    }
}

#[test]
fn queue_items_are_renumbered_with_lengths() {
    let mut a = queue_item("queue-a", "a.json", "A", 500, 2000);
    a.duration_ms = 1;
    let b = queue_item("queue-b", "b.json", "B", 0, 10);
    let items = normalize_items(vec![a, b]);
    assert_eq!(items[0].sequence, 1);
    assert_eq!(items[0].duration_ms, 1500);
    assert_eq!(items[1].sequence, 2);
    assert_eq!(items[1].id, "queue-b");
}

#[test]
fn written_queue_item_is_normalized() {
    let mut item = queue_item("  ", "x", "Camera A", 700, 100);
    item.clip_id = " ".to_string();
    item.duration_ms = 0;
    item.suggestion_id = Some(" ".to_string());
    item.semantic_ref = Some("sem-demo".to_string());
    item.semantic_tags = vec!["开场".to_string(), "  ".to_string(), "产品".to_string()];
    let r = normalize_manifest_item(item, 2, 42, "comp.json".to_string(), String::new());
    assert_eq!(r.id, "queue-3");
    assert_eq!(r.sequence, 3);
    assert_eq!(r.clip_id, "source");
    assert_eq!(r.start_ms, 700);
    assert_eq!(r.end_ms, 701);
    assert_eq!(r.duration_ms, 1);
    assert_eq!(r.composition_path, "comp.json");
    assert_eq!(r.suggestion_id, None);
    assert_eq!(r.semantic_ref.as_deref(), Some("sem-demo"));
    assert_eq!(r.semantic_tags, vec!["开场".to_string(), "产品".to_string()]);
    assert_eq!(r.updated_at, 42);
    assert_eq!(
        keep_nonblank_texts(vec![" ".to_string(), "x".to_string()]),
        vec!["x".to_string()]
    );
}

#[test]
fn blank_queue_path_is_refused() {
    assert_eq!(
        required_path("  ", "composition_path"),
        Err("video clip queue item composition_path is required".to_string())
    );
    assert_eq!(required_path(" a/b.json ", "composition_path"), Ok("a/b.json".to_string()));
}

#[test]
fn source_video_file_name_is_read_from_json() {
    assert_eq!(
        filename_from_source_video(Some("{\"filename\":\"camera-a.webm\",\"width\":640}")),
        Some("camera-a.webm".to_string())
    );
    assert_eq!(filename_from_source_video(Some("{\"filename\":\"  \"}")), None);
    assert_eq!(filename_from_source_video(Some("{\"filename\":3}")), None);
    assert_eq!(filename_from_source_video(Some("not json")), None);
    assert_eq!(filename_from_source_video(None), None);
}

#[test]
fn queued_clip_gets_semantic_note() {
    let item = queue_item("queue-a", "comp.json", "Camera A opening detail", 500, 1700);
    let s = semantic_from_queue_item(&item, 1, "1.2s");
    assert_eq!(s.sequence, 1);
    assert_eq!(s.scene, "Camera A opening detail");
    assert_eq!(s.duration_ms, 1200);
    assert_eq!(s.clip_key, queue_item_clip_key(&item));
    assert!(s.id.starts_with("sem-fnv1a64-"));
    assert_eq!(
        s.summary_zh,
        "第 1 段来自 camera-a-wide.webm，聚焦“Camera A opening detail”，时长 1.2s，适合承担开场吸引注意。"
    );
    assert!(s.tags.contains(&"开场".to_string()));
    assert_eq!(s.rhythm, "快节奏 hook，可用于抓住开头注意力");
    assert_eq!(
        s.recommendation,
        "语义理由：这段的核心内容是“Camera A opening detail”，节奏判断为快节奏 hook，可用于抓住开头注意力，建议用作开场吸引注意。"
    );
}

#[test]
fn untitled_clip_gets_numbered_scene() {
    let mut item = queue_item("queue-b", "comp.json", "   ", 0, 4000);
    item.source_video = None;
    let s = semantic_from_queue_item(&item, 2, "4.0s");
    assert_eq!(s.scene, "片段 2");
    assert!(s.summary_zh.contains("来自 项目视频"));
}

#[test]
fn video_clip_is_cut_from_start_or_end() {
    let v = video("art_a", "camera-a.webm", "a.json", 4000);
    let first = semantic_from_video(&v, 1, "1.8s");
    assert_eq!((first.start_ms, first.end_ms, first.duration_ms), (0, 1800, 1800));
    let later = semantic_from_video(&v, 2, "1.8s");
    assert_eq!((later.start_ms, later.end_ms), (2200, 4000));
    assert_eq!(later.clip_id, "source");
    assert_eq!(later.track_id, "video");
    assert_eq!(later.scene, "camera-a.webm · 项目视频片段");
    let source: serde_json::Value =
        serde_json::from_str(later.source_video.as_deref().expect("source")).expect("json");
    assert_eq!(source["filename"], "camera-a.webm");
    assert_eq!(source["duration_ms"], 4000);
    assert_eq!(source["src"], "media/camera-a.webm");
    let short = semantic_from_video(&video("s", "s.webm", "s.json", 0), 2, "0.0s");
    assert_eq!((short.start_ms, short.end_ms, short.duration_ms), (0, 1, 1));
    assert_eq!(video_clip_length(900), 900);
    assert_eq!(video_clip_length(9000), 1800);
}

#[test]
fn semantics_follow_queue_or_videos() {
    let queue = vec![queue_item("queue-a", "a.json", "A", 0, 1000)];
    let videos = vec![video("art_b", "b.webm", "b.json", 3000)];
    let from_queue = analyze_clip_semantics(&queue, &videos, &["1.0s".to_string()]);
    assert_eq!(from_queue.len(), 1);
    assert_eq!(from_queue[0].composition_path, "a.json");
    let from_videos = analyze_clip_semantics(&[], &videos, &["1.8s".to_string()]);
    assert_eq!(from_videos.len(), 1);
    assert_eq!(from_videos[0].composition_path, "b.json");
}

#[test]
fn queued_clip_suggestion_keeps_its_span() {
    let item = queue_item("queue-a", "a.json", "", 500, 1700);
    let s = suggestion_from_queue_item(&item, "sug-x", 2);
    assert_eq!(s.id, "sug-x-02");
    assert_eq!(s.scene, "建议片段 2");
    assert_eq!((s.start_ms, s.end_ms, s.duration_ms), (500, 1700, 1200));
    assert_eq!(s.reason, "保留持久化队列第 2 段，延续 PM 已经整理过的项目节奏。");
    assert_eq!(s.suggestion_id, "sug-x");
}

#[test]
fn video_suggestion_window() {
    let long = video("art_b", "camera-b.webm", "b.json", 5000);
    let s = suggestion_from_video(&long, "sug-x", 2);
    assert_eq!((s.start_ms, s.end_ms, s.duration_ms), (1666, 3466, 1800));
    assert_eq!(s.scene, "camera-b.webm · AI 建议片段");
    let first = suggestion_from_video(&long, "sug-x", 1);
    assert_eq!((first.start_ms, first.end_ms), (0, 1800));
    let medium = video("art_c", "c.webm", "c.json", 3000);
    let m = suggestion_from_video(&medium, "sug-x", 3);
    assert_eq!((m.start_ms, m.end_ms, m.duration_ms), (1200, 3000, 1800));
    assert_eq!(m.id, "sug-x-03");
}

#[test]
fn suggestion_keeps_queue_and_skips_covered_videos() {
    let queue = vec![
        queue_item("queue-a", "a.json", "Camera A existing opener", 500, 1700),
        queue_item("queue-b", "b.json", "Camera B existing closeup", 1000, 3000),
    ];
    let videos = vec![
        video("art_a", "camera-a.webm", "a.json", 4000),
        video("art_b", "camera-b.webm", "b.json", 5000),
    ];
    let s = suggest_video_clip_queue("proj", "Suggestion Project", &queue, &videos, "sug-fnv1a64-1", 7);
    assert_eq!(s.source_video_count, 2);
    assert_eq!(s.existing_queue_count, 2);
    assert_eq!(s.items.len(), 2);
    assert_eq!(s.items[0].scene, "Camera A existing opener");
    assert_eq!(s.items[1].scene, "Camera B existing closeup");
    assert!(s.items.iter().all(|item| !item.reason.is_empty()));
    assert_eq!(
        s.rationale,
        "保留已持久化队列的顺序作为 PM 已认可上下文，并补充项目中尚未覆盖的视频素材。"
    );
}

#[test]
fn suggestion_fills_up_to_four_clips() {
    let videos: Vec<VideoCandidate> = (0..6)
        .map(|i| video(&format!("art_{i}"), &format!("v{i}.webm"), &format!("c{}.json", i % 5), 4000))
        .collect();
    let items = plan_suggestions(&[], &videos, "sug");
    assert_eq!(items.len(), 4);
    assert_eq!(items[0].start_ms, 0);
    assert_eq!(items[3].composition_path, "c3.json");
    let queue = vec![queue_item("q", "c1.json", "Q", 0, 1000)];
    let items = plan_suggestions(&queue, &videos, "sug");
    let comps: Vec<&str> = items.iter().map(|i| i.composition_path.as_str()).collect();
    assert_eq!(comps, vec!["c1.json", "c0.json", "c2.json", "c3.json"]);
    let s = suggest_video_clip_queue("p", "P", &[], &[], "sug", 0);
    assert!(s.items.is_empty());
    assert_eq!(s.rationale, "基于项目视频素材自动选择短片段，先形成可采用的线性剪辑队列。");
}

#[test]
fn videos_are_taken_by_file_name_then_id() {
    let sorted = sort_video_candidates(vec![
        video("art_b", "camera-b.webm", "b.json", 1),
        video("art_z", "camera-a.webm", "z.json", 1),
        video("art_a", "camera-a.webm", "a.json", 1),
    ]);
    let ids: Vec<&str> = sorted.iter().map(|v| v.artifact_id.as_str()).collect();
    assert_eq!(ids, vec!["art_a", "art_z", "art_b"]);
    assert!(text_pair_before("a", "z", "b", "a"));
    assert!(!text_pair_before("a", "z", "a", "b"));
}

#[test]
fn feedback_record_classifies_text() {
    let item = queue_item("queue-a", "a.json", "Camera A", 500, 1700);
    let f = feedback_from_queue_item(&item, "这段不适合开场", 10, 20);
    assert_eq!(f.queue_item_id, "queue-a");
    assert_eq!(f.feedback_kind, "opening_reject");
    assert_eq!(f.recommendation_effect, "deprioritize_opening");
    assert_eq!(f.clip_key, "a.json|source|500|1700");
    assert!(f.id.starts_with("feedback-fnv1a64-"));
    assert_eq!((f.created_at, f.updated_at, f.duration_ms), (10, 20, 1200));
}

#[test]
fn recording_feedback_replaces_and_clears() {
    let queue = vec![queue_item("queue-a", "a.json", "Camera A", 500, 1700)];
    let key = queue_item_clip_key(&queue[0]);
    let existing = vec![
        feedback_item("f-old", "queue-a", &key, "old note", 5),
        feedback_item("f-other", "queue-z", "z|source|0|1", "keep me", 6),
    ];
    let updated = record_feedback_items(existing, &queue, "queue-a", "  这段不适合开场 ", 99).expect("ok");
    assert_eq!(updated.len(), 2);
    assert_eq!(updated[0].queue_item_id, "queue-z");
    assert_eq!(updated[1].feedback, "这段不适合开场");
    assert_eq!(updated[1].created_at, 5);
    assert_eq!(updated[1].updated_at, 99);
    let cleared = record_feedback_items(updated, &queue, "queue-a", " ", 100).expect("ok");
    assert_eq!(cleared.len(), 1);
    assert_eq!(cleared[0].queue_item_id, "queue-z");
    let err = record_feedback_items(Vec::new(), &queue, "queue-x", "note", 1).err();
    assert_eq!(err.as_deref(), Some("video clip feedback queue_item_id not found: queue-x"));
    assert_eq!(find_queue_item(&queue, "queue-a"), Some(0));
}

#[test]
fn stored_feedback_is_cleaned_and_ordered() {
    let items = vec![
        feedback_item("", "queue-b", "b|source|0|1000", "good opener", 1),
        feedback_item("f-blank", "queue-a", "a|source|0|1000", "   ", 2),
        feedback_item("f-a", "queue-a", "a|source|0|1000", "note", 3),
    ];
    let kept = normalize_feedback_items(items);
    assert_eq!(kept.len(), 2);
    assert_eq!(kept[0].id, "f-a");
    assert_eq!(kept[0].feedback_kind, "general");
    assert_eq!(kept[0].recommendation_effect, "cite_context");
    assert_eq!(kept[0].duration_ms, 1000);
    assert!(kept[1].id.starts_with("feedback-fnv1a64-"));
    assert_eq!(kept[1].feedback_kind, "opening_prefer");
}


#[test]
fn semantic_notes_from_disk_are_renumbered() {
    let item = queue_item("queue-a", "comp.json", "Opening", 500, 1700);
    let mut a = semantic_from_queue_item(&item, 7, "1.2s");
    a.clip_key = "  ".to_string();
    a.duration_ms = 10;
    let mut b = semantic_from_queue_item(&item, 9, "1.2s");
    b.clip_key = "kept-key".to_string();
    let v = normalize_semantic_items(vec![a, b]);
    assert_eq!((v[0].sequence, v[1].sequence), (1, 2));
    assert_eq!(v[0].clip_key, queue_item_clip_key(&item));
    assert_eq!(v[0].duration_ms, 1200);
    assert_eq!(v[1].clip_key, "kept-key");
    assert_eq!(v[1].scene, "Opening");
}

fn composition_for(artifact_id: &str) -> String {
    format!(".capy/video-compositions/{artifact_id}/compositions/main.json")
}

fn project_videos() -> Vec<VideoCandidate> {
    sort_video_candidates(vec![
        video("art_a", "camera-a.webm", &composition_for("art_a"), 4_000),
        video("art_b", "camera-b.webm", &composition_for("art_b"), 5_000),
    ])
}

fn suggestion_for(
    project_name: &str,
    items: Vec<ProjectVideoClipQueueItemV1>,
) -> (Vec<ProjectVideoClipQueueItemV1>, capy_core::project::queue::ProjectVideoClipSuggestionV1) {
    let queue = normalize_items(items);
    let videos = project_videos();
    let id = video_clip_suggestion_id("demo", &queue, &videos);
    let s = suggest_video_clip_queue("demo", project_name, &queue, &videos, &id, 0);
    (queue, s)
}

#[test]
fn video_clip_suggestion_video_clip_suggestion_uses_project_videos_and_existing_queue() {
    let (_, s) = suggestion_for(
        "Suggestion Project",
        vec![
            queue_item("queue-a", &composition_for("art_a"), "Camera A existing opener", 500, 1_700),
            queue_item("queue-b", &composition_for("art_b"), "Camera B existing closeup", 1_000, 3_000),
        ],
    );
    assert_eq!(s.schema_version, "capy.project-video-clip-suggestion.v1");
    assert_eq!(s.source_video_count, 2);
    assert_eq!(s.existing_queue_count, 2);
    assert_eq!(s.items.len(), 2);
    assert!(s.items.iter().all(|item| !item.reason.is_empty()));
    assert_eq!(s.items[0].scene, "Camera A existing opener");
    assert_eq!(s.items[1].scene, "Camera B existing closeup");
    assert!(s.suggestion_id.starts_with("sug-fnv1a64-"));
}

#[test]
fn video_clip_suggestion_tests_video_clip_suggestion_uses_project_videos_and_existing_queue() {
    let (_, s) = suggestion_for(
        "Suggestion Project",
        vec![
            queue_item("queue-a", &composition_for("art_a"), "Camera A existing opener", 500, 1_700),
            queue_item("queue-b", &composition_for("art_b"), "Camera B existing closeup", 1_000, 3_000),
        ],
    );
    assert_eq!(s.schema_version, "capy.project-video-clip-suggestion.v1");
    assert_eq!(s.source_video_count, 2);
    assert_eq!(s.existing_queue_count, 2);
    assert_eq!(s.items.len(), 2);
    assert!(s.items.iter().all(|item| !item.reason.is_empty()));
    assert_eq!(s.items[0].scene, "Camera A existing opener");
    assert_eq!(s.items[1].scene, "Camera B existing closeup");
    assert!(s.suggestion_id.starts_with("sug-fnv1a64-"));
}

#[test]
fn video_clip_suggestion_cites_feedback_without_mutating_queue() {
    let (queue, s) = suggestion_for(
        "Feedback Suggestion",
        vec![
            queue_item("queue-a", &composition_for("art_a"), "Camera A opening detail", 500, 1_700),
            queue_item("queue-b", &composition_for("art_b"), "Camera B product closeup", 1_000, 2_500),
        ],
    );
    let feedback = record_feedback_items(Vec::new(), &queue, "queue-a", "这段不适合开场", 1).expect("queue item exists");
    assert_eq!(feedback.len(), 1);
    assert_eq!(feedback[0].feedback, "这段不适合开场");
    assert_eq!(feedback[0].recommendation_effect, "deprioritize_opening");
    assert!(s.items.iter().any(|item| item.scene == "Camera A opening detail"));
    assert!(s.items.iter().any(|item| item.scene == "Camera B product closeup"));
    assert_eq!(queue[0].id, "queue-a");
    assert_eq!(queue[1].id, "queue-b");
}

fn video_artifact(id: &str, filename: &str, provenance: Option<&str>, outputs: Vec<String>) -> capy_core::project::model::ArtifactRefV1 {
    capy_core::project::model::ArtifactRefV1 {
        id: id.to_string(),
        kind: capy_core::project::model::ArtifactKind::Video,
        title: filename.to_string(),
        source_path: format!("media/{filename}"),
        source_refs: Vec::new(),
        output_refs: outputs,
        design_language_refs: Vec::new(),
        asset_refs: Vec::new(),
        provenance: provenance.map(str::to_string),
        evidence_refs: Vec::new(),
        updated_at: 0,
    }
}

#[test]
fn video_candidates_are_read_from_import_records() {
    let b = video_artifact(
        "art_b",
        "camera-b.webm",
        Some(r#"{"video_import":{"filename":"camera-b.webm","duration_ms":5000,"width":640,"height":360,"composition_path":"b.json"}}"#),
        Vec::new(),
    );
    let a = video_artifact(
        "art_a",
        "camera-a.webm",
        Some(r#"{"video_import":{"filename":"camera-a.webm","duration_ms":4000}}"#),
        vec!["a.json".to_string()],
    );
    let c = video_candidate(&a).expect("video with import record");
    assert_eq!((c.filename.as_str(), c.duration_ms, c.width, c.height), ("camera-a.webm", 4000, 0, 0));
    assert_eq!(c.composition_path, "a.json");
    assert_eq!(c.source_path, "media/camera-a.webm");
    let no_import = video_artifact("art_c", "c.webm", Some(r#"{"other":1}"#), vec!["c.json".to_string()]);
    assert!(video_candidate(&no_import).is_none());
    let not_object = video_artifact("art_d", "d.webm", Some(r#"{"video_import":[1]}"#), vec!["d.json".to_string()]);
    assert!(video_candidate(&not_object).is_none());
    let no_composition = video_artifact("art_e", "e.webm", Some(r#"{"video_import":{}}"#), Vec::new());
    assert!(video_candidate(&no_composition).is_none());
    let unnamed = video_artifact("art_f", "f.webm", Some(r#"{"video_import":{}}"#), vec!["f.json".to_string()]);
    assert_eq!(video_candidate(&unnamed).unwrap().filename, "video");
    let mut image = a.clone();
    image.kind = capy_core::project::model::ArtifactKind::Image;
    assert!(video_candidate(&image).is_none());
    let all = video_candidates(&[b, no_import, a, image]);
    let ids: Vec<&str> = all.iter().map(|c| c.artifact_id.as_str()).collect();
    assert_eq!(ids, vec!["art_a", "art_b"]);
}
