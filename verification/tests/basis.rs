use capy_core::project::basis::{queue_hash, video_clip_proposal_id, video_clip_suggestion_id};
use capy_core::project::json::{json_text, JsonValue};
use capy_core::project::model::{ArtifactKind, ArtifactRefV1, DesignLanguageSummaryV1, ProjectManifestV1};
use capy_core::project::proposal::queue_changed_conflict;
use capy_core::project::queue::{ProjectVideoClipQueueItemV1, VideoCandidate};
use capy_core::project::video_context::{video_project_context, ProposalHistoryRef};
use serde_json::Value;

fn fnv(bytes: &[u8]) -> u64 {
    let mut h = 0xcbf29ce484222325_u64;
    for b in bytes {
        h ^= u64::from(*b);
        h = h.wrapping_mul(0x100000001b3);
    }
    h
}

fn item(id: &str, seq: u64, comp: &str, start: u64, end: u64) -> ProjectVideoClipQueueItemV1 {
    ProjectVideoClipQueueItemV1 {
        id: id.to_string(),
        sequence: seq,
        composition_path: comp.to_string(),
        render_source_path: String::new(),
        clip_id: "source".to_string(),
        track_id: "video".to_string(),
        scene: "Opening \"cut\"".to_string(),
        start_ms: start,
        end_ms: end,
        duration_ms: end - start,
        source_video: None,
        suggestion_id: None,
        suggestion_reason: None,
        semantic_ref: None,
        semantic_summary: None,
        semantic_tags: Vec::new(),
        semantic_reason: None,
        updated_at: 0,
    }
}

fn serde_basis(i: &ProjectVideoClipQueueItemV1) -> Value {
    let mut m = serde_json::Map::new();
    m.insert("id".into(), Value::from(i.id.clone()));
    m.insert("sequence".into(), Value::from(i.sequence));
    m.insert("composition_path".into(), Value::from(i.composition_path.clone()));
    m.insert("clip_id".into(), Value::from(i.clip_id.clone()));
    m.insert("start_ms".into(), Value::from(i.start_ms));
    m.insert("end_ms".into(), Value::from(i.end_ms));
    Value::Object(m)
}

#[test]
fn json_text_matches_serde_json() {
    let v = JsonValue::Object(vec![
        ("a".to_string(), JsonValue::Array(vec![JsonValue::Null, JsonValue::Bool(true), JsonValue::Number(7)])),
        ("b".to_string(), JsonValue::Text("line\n\"quoted\" \u{1F600}".to_string())),
    ]);
    let mut m = serde_json::Map::new();
    m.insert("b".into(), Value::from("line\n\"quoted\" \u{1F600}"));
    m.insert("a".into(), Value::Array(vec![Value::Null, Value::Bool(true), Value::from(7u64)]));
    assert_eq!(json_text(&v), serde_json::to_string(&Value::Object(m)).unwrap());
}

#[test]
fn queue_hash_hashes_the_serde_basis() {
    let items = vec![item("queue-a", 1, "comps/a.json", 0, 1200), item("queue-b", 2, "comps/b.json", 400, 900)];
    let basis: Vec<Value> = items.iter().map(serde_basis).collect();
    let text = serde_json::to_string(&basis).unwrap();
    assert_eq!(queue_hash(&items), format!("queue-fnv1a64-{:016x}", fnv(text.as_bytes())));
    assert_eq!(queue_hash(&[]), format!("queue-fnv1a64-{:016x}", fnv(b"[]")));
}

#[test]
fn proposal_and_suggestion_ids_hash_their_basis() {
    let before = vec![item("queue-a", 1, "a.json", 0, 1000)];
    let after = vec![item("queue-b", 1, "b.json", 0, 800)];
    let mut m = serde_json::Map::new();
    m.insert("project_id".into(), Value::from("proj"));
    m.insert("suggestion_id".into(), Value::from("sug-1"));
    m.insert("revision".into(), Value::from(3u64));
    m.insert("base_queue_hash".into(), Value::from("queue-x"));
    m.insert("before".into(), Value::Array(before.iter().map(serde_basis).collect()));
    m.insert("after".into(), Value::Array(after.iter().map(serde_basis).collect()));
    let text = serde_json::to_string(&Value::Object(m)).unwrap();
    assert_eq!(
        video_clip_proposal_id("proj", "sug-1", 3, "queue-x", &before, &after),
        format!("proposal-fnv1a64-{:016x}", fnv(text.as_bytes()))
    );
    let videos = vec![VideoCandidate {
        artifact_id: "art_v".to_string(),
        title: "V".to_string(),
        source_path: "media/v.mp4".to_string(),
        filename: "v.mp4".to_string(),
        duration_ms: 4000,
        width: 640,
        height: 360,
        composition_path: "comps/v.json".to_string(),
    }];
    let mut q = serde_json::Map::new();
    q.insert("id".into(), Value::from("queue-a"));
    q.insert("sequence".into(), Value::from(1u64));
    q.insert("composition_path".into(), Value::from("a.json"));
    q.insert("start_ms".into(), Value::from(0u64));
    q.insert("end_ms".into(), Value::from(1000u64));
    q.insert("scene".into(), Value::from("Opening \"cut\""));
    let mut vm = serde_json::Map::new();
    vm.insert("artifact_id".into(), Value::from("art_v"));
    vm.insert("source_path".into(), Value::from("media/v.mp4"));
    vm.insert("composition_path".into(), Value::from("comps/v.json"));
    vm.insert("duration_ms".into(), Value::from(4000u64));
    let mut sm = serde_json::Map::new();
    sm.insert("schema_version".into(), Value::from("capy.project-video-clip-queue.v1"));
    sm.insert("project_id".into(), Value::from("proj"));
    sm.insert("videos".into(), Value::Array(vec![Value::Object(vm)]));
    sm.insert("queue".into(), Value::Array(vec![Value::Object(q)]));
    let text = serde_json::to_string(&Value::Object(sm)).unwrap();
    assert_eq!(
        video_clip_suggestion_id("proj", &before, &videos),
        format!("sug-fnv1a64-{:016x}", fnv(text.as_bytes()))
    );
}

fn artifact(id: &str, kind: ArtifactKind) -> ArtifactRefV1 {
    ArtifactRefV1 {
        id: id.to_string(),
        kind,
        title: format!("{id} title"),
        source_path: format!("media/{id}"),
        source_refs: vec![],
        output_refs: vec![],
        design_language_refs: vec![],
        asset_refs: vec![],
        provenance: None,
        evidence_refs: vec![],
        updated_at: 0,
    }
}

fn summary() -> DesignLanguageSummaryV1 {
    DesignLanguageSummaryV1 {
        name: "n".to_string(),
        version: "v".to_string(),
        summary: "s".to_string(),
        design_language_ref: "dlpkg-ref".to_string(),
        asset_count: 0,
        token_count: 0,
        reference_image_count: 0,
        rule_count: 0,
        example_count: 0,
    }
}

fn history(id: &str, revision: u64, status: &str, conflict: bool, decision: Option<&str>) -> ProposalHistoryRef {
    ProposalHistoryRef {
        proposal_id: id.to_string(),
        revision,
        status: status.to_string(),
        base_queue_hash: "queue-base".to_string(),
        current_queue_hash: Some("queue-now".to_string()),
        decision: decision.map(str::to_string),
        conflict: if conflict { Some(queue_changed_conflict("queue-base", "queue-now", 5)) } else { None },
    }
}

#[test]
fn context_build_includes_safe_video_project_package() {
    let project = ProjectManifestV1 {
        schema_version: "capy.project.v1".to_string(),
        id: "proj".to_string(),
        name: "Demo".to_string(),
        root: "/tmp/demo".to_string(),
        created_at: 0,
        updated_at: 0,
    };
    let artifacts = vec![artifact("art_a", ArtifactKind::Video), artifact("page", ArtifactKind::Html), artifact("art_b", ArtifactKind::Video)];
    let queue = vec![item("queue-a", 1, "a.json", 0, 1000)];
    let hist = vec![
        history("p1", 1, "rejected", false, Some("reject")),
        history("p2", 2, "conflicted", true, Some("accept")),
        history("p3", 3, "accepted", false, Some("accept")),
    ];
    let none = video_project_context(&project, &artifacts[1], &[artifacts[1].clone()], &[], &[], summary(), vec![], 9);
    assert!(none.is_none());
    let ctx = video_project_context(&project, &artifacts[0], &artifacts, &queue, &hist, summary(), vec![], 9).unwrap();
    assert!(ctx.package_id.starts_with("vpctx-fnv1a64-"));
    assert_eq!(ctx.anchor_artifact.artifact_id, "art_a");
    assert_eq!(ctx.source_media.len(), 2);
    assert_eq!(ctx.project_summary.proposal_history_count, 3);
    assert_eq!(ctx.history_entry_count, 3);
    assert_eq!(
        ctx.status_counts,
        vec![("accepted".to_string(), 1), ("conflicted".to_string(), 1), ("rejected".to_string(), 1)]
    );
    assert_eq!(ctx.conflicts.len(), 1);
    assert_eq!(ctx.conflicts[0].proposal_id, "p2");
    assert_eq!(ctx.current_queue_hash, queue_hash(&queue));
    assert!(ctx.safety.no_queue_write);
    // the id is the hash of the basis as serde_json writes it
    let mut basis = serde_json::Map::new();
    basis.insert("project_id".into(), Value::from("proj"));
    basis.insert("anchor_artifact_id".into(), Value::from("art_a"));
    basis.insert(
        "source_media".into(),
        Value::Array(vec![
            Value::Array(vec![Value::from("art_a"), Value::from("media/art_a")]),
            Value::Array(vec![Value::from("art_b"), Value::from("media/art_b")]),
        ]),
    );
    basis.insert("current_queue_hash".into(), Value::from(queue_hash(&queue)));
    let entries: Vec<Value> = hist
        .iter()
        .map(|e| {
            let mut m = serde_json::Map::new();
            m.insert("proposal_id".into(), Value::from(e.proposal_id.clone()));
            m.insert("revision".into(), Value::from(e.revision));
            m.insert("status".into(), Value::from(e.status.clone()));
            m.insert("base_queue_hash".into(), Value::from(e.base_queue_hash.clone()));
            m.insert("current_queue_hash".into(), e.current_queue_hash.clone().map(Value::from).unwrap_or(Value::Null));
            m.insert("decision".into(), e.decision.clone().map(Value::from).unwrap_or(Value::Null));
            m.insert(
                "conflict".into(),
                e.conflict
                    .as_ref()
                    .map(|c| {
                        Value::Array(vec![
                            Value::from(c.conflict_type.clone()),
                            Value::from(c.base_queue_hash.clone()),
                            Value::from(c.current_queue_hash.clone()),
                        ])
                    })
                    .unwrap_or(Value::Null),
            );
            Value::Object(m)
        })
        .collect();
    basis.insert("history".into(), Value::Array(entries));
    basis.insert("design_language_ref".into(), Value::from("dlpkg-ref"));
    let text = serde_json::to_string(&Value::Object(basis)).unwrap();
    assert_eq!(ctx.package_id, format!("vpctx-fnv1a64-{:016x}", fnv(text.as_bytes())));
}
