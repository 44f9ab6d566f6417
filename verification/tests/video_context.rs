use capy_core::project::model::{
    ArtifactKind, ArtifactRefV1, DesignLanguageAssetV1, DesignLanguageSummaryV1, ProjectManifestV1,
};
use capy_core::project::proposal::queue_changed_conflict;
use capy_core::project::video_context::{
    anchor_artifact, conflict_summary, design_constraints,
    video_context_safety, video_media_sources, video_project_summary,
};

fn artifact(id: &str, kind: ArtifactKind, provenance: Option<&str>) -> ArtifactRefV1 {
    ArtifactRefV1 {
        id: id.to_string(),
        kind,
        title: format!("{id} title"),
        source_path: format!("media/{id}.mp4"),
        source_refs: vec![],
        output_refs: vec![],
        design_language_refs: vec![],
        asset_refs: vec![],
        provenance: provenance.map(str::to_string),
        evidence_refs: vec![],
        updated_at: 0,
    }
}

fn project() -> ProjectManifestV1 {
    ProjectManifestV1 {
        schema_version: "capy.project.v1".to_string(),
        id: "proj_1".to_string(),
        name: "Demo".to_string(),
        root: "/tmp/demo".to_string(),
        created_at: 1,
        updated_at: 2,
    }
}

#[test]
fn video_sources_read_the_import_record() {
    let artifacts = vec![
        artifact("art_page", ArtifactKind::Html, None),
        artifact(
            "art_v1",
            ArtifactKind::Video,
            Some(r#"{"video_import":{"filename":"a.mp4","duration_ms":4200,"width":1920,"height":1080,"fps":29.97,"byte_size":99,"poster_frame_path":"  ","composition_path":"compositions/a.json"}}"#),
        ),
        artifact("art_v2", ArtifactKind::Video, None),
    ];
    let sources = video_media_sources(&artifacts);
    assert_eq!(sources.len(), 2);
    assert_eq!(sources[0].artifact_id, "art_v1");
    assert_eq!(sources[0].title, "art_v1 title");
    assert_eq!(sources[0].filename.as_deref(), Some("a.mp4"));
    assert_eq!(sources[0].duration_ms, Some(4200));
    assert_eq!((sources[0].width, sources[0].height), (Some(1920), Some(1080)));
    assert_eq!(sources[0].byte_size, Some(99));
    assert_eq!(sources[0].poster_frame_path, None);
    assert_eq!(sources[0].composition_path.as_deref(), Some("compositions/a.json"));
    assert_eq!(sources[1].artifact_id, "art_v2");
    assert_eq!(sources[1].filename, None);
    assert_eq!(sources[1].duration_ms, None);
}

#[test]
fn empty_video_project_has_no_context() {
    assert!(video_project_summary(&project(), 0, 0, 0).is_none());
    let s = video_project_summary(&project(), 2, 0, 3).unwrap();
    assert_eq!(s.project_id, "proj_1");
    assert_eq!(s.project_name, "Demo");
    assert_eq!((s.source_media_count, s.queue_item_count, s.proposal_history_count), (2, 0, 3));
}

#[test]
fn video_context_safety_promises() {
    let safety = video_context_safety();
    assert!(safety.safe_for_next_ai_input && safety.no_queue_write && safety.proposal_history_read_only);
    assert_eq!(safety.red_lines_zh.len(), 3);
    assert!(safety.queue_write_policy_zh.contains("base_queue_hash"));
}

#[test]
fn anchor_and_conflict_summaries() {
    let a = artifact("art_a", ArtifactKind::CompositionJson, None);
    let anchor = anchor_artifact(&a);
    assert_eq!(anchor.artifact_id, "art_a");
    assert_eq!(anchor.artifact_kind, ArtifactKind::CompositionJson);
    assert_eq!(anchor.source_path, "media/art_a.mp4");
    assert!(conflict_summary("p", 1, "rejected", &None).is_none());
    let c = Some(queue_changed_conflict("base", "now", 9));
    let s = conflict_summary("p", 3, "conflicted", &c).unwrap();
    assert_eq!((s.proposal_id.as_str(), s.revision, s.status.as_str()), ("p", 3, "conflicted"));
    assert_eq!(s.conflict.current_queue_hash, "now");
}

#[test]
fn design_constraints_carry_the_summary_ref() {
    let summary = DesignLanguageSummaryV1 {
        name: "Project Design Language".to_string(),
        version: "0.1.0".to_string(),
        summary: "s".to_string(),
        design_language_ref: "dlref-abc".to_string(),
        asset_count: 1,
        token_count: 1,
        reference_image_count: 0,
        rule_count: 0,
        example_count: 0,
    };
    let asset = DesignLanguageAssetV1 {
        id: "dl_1".to_string(),
        kind: "css".to_string(),
        role: Some("tokens".to_string()),
        path: "tokens.css".to_string(),
        title: "Tokens".to_string(),
        description: None,
    };
    let c = design_constraints(summary, vec![asset]);
    assert_eq!(c.design_language_ref, "dlref-abc");
    assert_eq!(c.summary.asset_count, 1);
    assert_eq!(c.assets[0].id, "dl_1");
}
