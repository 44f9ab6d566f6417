use capy_core::project::model::{ArtifactKind, ArtifactRefV1, DesignLanguageSummaryV1};
use capy_core::project::workbench::{
    artifact_card, artifact_video_duration_ms, export_center_card, missing_card, preview_kind,
    product_kind, video_preview_text, workbench,
};

fn artifact(id: &str, kind: ArtifactKind, title: &str, source_path: &str) -> ArtifactRefV1 {
    ArtifactRefV1 {
        id: id.to_string(),
        kind,
        title: title.to_string(),
        source_path: source_path.to_string(),
        source_refs: Vec::new(),
        output_refs: Vec::new(),
        design_language_refs: Vec::new(),
        asset_refs: Vec::new(),
        provenance: None,
        evidence_refs: Vec::new(),
        updated_at: 5,
    }
}

fn video_artifact(id: &str, title: &str, filename: &str) -> ArtifactRefV1 {
    let mut a = artifact(id, ArtifactKind::Video, title, &format!("media/{filename}"));
    a.provenance = Some(format!(
        "{{\"video_import\":{{\"filename\":\"{filename}\",\"duration_ms\":1000,\"width\":320,\"height\":180,\"poster_frame_path\":\".capy/video-posters/{id}.png\",\"composition_path\":\".capy/video-compositions/{id}/compositions/main.json\"}}}}"
    ));
    a
}

fn summary() -> DesignLanguageSummaryV1 {
    DesignLanguageSummaryV1 {
        name: "Project Design Language".to_string(),
        version: "0.1.0".to_string(),
        summary: String::new(),
        design_language_ref: "dlref".to_string(),
        asset_count: 0,
        token_count: 0,
        reference_image_count: 0,
        rule_count: 0,
        example_count: 0,
    }
}

#[test]
fn workbench_returns_six_product_cards() {
    let artifacts = vec![artifact("art_1", ArtifactKind::Html, "Landing", "web/index.html")];
    let w = workbench("proj", "Demo", summary(), &artifacts, &[None], 9);
    assert_eq!(w.cards.len(), 6);
    let kinds: Vec<&str> = w.cards.iter().map(|c| c.kind.as_str()).collect();
    assert_eq!(kinds, vec!["image", "poster", "ppt", "video", "web", "export_center"]);
    assert!(w.cards.iter().any(|card| card.kind == "web"));
    assert!(w.cards.iter().any(|card| card.kind == "export_center"));
    assert_eq!(w.cards[4].id, "art_1");
    assert_eq!(w.cards[4].status, "ready");
    assert_eq!(w.cards[4].preview.kind, "html");
    assert_eq!(w.cards[0].status, "missing");
    assert_eq!(w.cards[3].id, "missing_video");
    assert_eq!(w.cards[5].status, "waiting");
    assert_eq!(w.schema_version, "capy.project-workbench.v1");
}

#[test]
fn workbench_returns_multiple_video_cards() {
    let artifacts = vec![
        video_artifact("art_a", "Alpha Source", "alpha.webm"),
        artifact("art_w", ArtifactKind::Html, "", "web/index.html"),
        video_artifact("art_b", "Beta Source", "beta.webm"),
    ];
    let durations = vec![Some("1.00s".to_string()), None, Some("1.00s".to_string())];
    let w = workbench("proj", "Multi Video", summary(), &artifacts, &durations, 1);
    let video_cards: Vec<_> = w.cards.iter().filter(|card| card.kind == "video").collect();
    assert_eq!(video_cards.len(), 2);
    assert!(video_cards.iter().all(|card| card.preview.kind == "video"));
    assert!(video_cards.iter().all(|card| card.preview.poster_frame_path.is_some()));
    assert!(video_cards.iter().all(|card| card.preview.composition_path.is_some()));
    assert!(video_cards.iter().any(|card| card.title == "Alpha Source"));
    assert!(video_cards.iter().any(|card| card.title == "Beta Source"));
    assert_eq!(
        video_cards[0].preview.text.as_deref(),
        Some("alpha.webm · 1.00s · 320x180")
    );
    assert_eq!(w.cards.len(), 7);
    let web = w.cards.iter().find(|c| c.kind == "web").expect("web card");
    assert_eq!(web.title, "网页");
    assert_eq!(artifact_video_duration_ms(&artifacts[0]), Some(1000));
    assert_eq!(artifact_video_duration_ms(&artifacts[1]), None);
}

#[test]
fn product_and_preview_kinds() {
    assert_eq!(product_kind(&ArtifactKind::CompositionJson), "video");
    assert_eq!(product_kind(&ArtifactKind::Markdown), "other");
    assert_eq!(preview_kind(&ArtifactKind::Markdown), "text");
    assert_eq!(preview_kind(&ArtifactKind::PptJson), "json");
    assert_eq!(preview_kind(&ArtifactKind::Css), "none");
    assert_eq!(video_preview_text("{}", None), "video · duration unknown · size unknown");
    assert_eq!(
        video_preview_text("{\"filename\":\"a.webm\",\"width\":4}", Some("0.50s")),
        "a.webm · 0.50s · size unknown"
    );
}

#[test]
fn export_center_collects_outputs_and_evidence() {
    let mut a = artifact("a", ArtifactKind::Html, "A", "a.html");
    a.output_refs = vec!["out/a.mp4".to_string()];
    a.updated_at = 3;
    let mut b = artifact("b", ArtifactKind::Image, "B", "b.svg");
    b.evidence_refs = vec![".capy/runs/gen_1.json".to_string()];
    b.updated_at = 8;
    let c = export_center_card(&[a.clone(), b.clone()]);
    assert_eq!(c.status, "ready");
    assert_eq!(c.output_refs, vec!["out/a.mp4".to_string()]);
    assert_eq!(c.evidence_refs, vec![".capy/runs/gen_1.json".to_string()]);
    assert_eq!(c.updated_at, 8);
    assert_eq!(c.next_actions, vec!["review-evidence".to_string()]);
    let generated = artifact_card("image", "图片", &b, None);
    assert_eq!(generated.status, "generated");
    assert_eq!(generated.next_actions, vec!["select", "generate", "open-editor"]);
    let empty = export_center_card(&[]);
    assert_eq!((empty.status.as_str(), empty.updated_at), ("waiting", 0));
    let m = missing_card("web", "网页");
    assert_eq!(m.preview.text.as_deref(), Some("等待项目源文件"));
}
