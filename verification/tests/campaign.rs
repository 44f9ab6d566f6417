use capy_core::project::campaign::{
    campaign_fixture_source, campaign_patch, campaign_prompt, campaign_targets,
    check_campaign_targets,
};
use capy_core::project::model::{ArtifactKind, ArtifactRefV1};

fn artifact(id: &str, kind: ArtifactKind, source_path: &str) -> ArtifactRefV1 {
    ArtifactRefV1 {
        id: id.to_string(),
        kind,
        title: format!("{id} title"),
        source_path: source_path.to_string(),
        source_refs: vec![format!("{id}.dep")],
        output_refs: Vec::new(),
        design_language_refs: Vec::new(),
        asset_refs: Vec::new(),
        provenance: None,
        evidence_refs: Vec::new(),
        updated_at: 0,
    }
}

fn registry() -> Vec<ArtifactRefV1> {
    vec![
        artifact("web", ArtifactKind::Html, "web/index.html"),
        artifact("img", ArtifactKind::Image, "img/a.svg"),
        artifact("poster", ArtifactKind::PosterJson, "poster/poster.json"),
        artifact("deck", ArtifactKind::PptJson, "deck/deck.json"),
        artifact("css", ArtifactKind::Css, "web/site.css"),
    ]
}

#[test]
fn default_targets_are_editable_artifacts() {
    let targets = campaign_targets(&registry(), &[]).expect("targets");
    let ids: Vec<&str> = targets.iter().map(|t| t.artifact_id.as_str()).collect();
    assert_eq!(ids, vec!["web", "poster", "deck"]);
    assert!(targets.len() >= 3);
    assert_eq!(targets[1].kind, "poster-json");
    assert_eq!(targets[0].dependencies, vec!["web.dep".to_string()]);
    assert_eq!(targets[0].review_mode, "review");
    assert_eq!(targets[0].status, "planned");
    assert_eq!(check_campaign_targets(&targets), Ok(()));
}

#[test]
fn requested_targets_keep_their_order() {
    let requested = vec!["deck".to_string(), "img".to_string()];
    let targets = campaign_targets(&registry(), &requested).expect("targets");
    let ids: Vec<&str> = targets.iter().map(|t| t.artifact_id.as_str()).collect();
    assert_eq!(ids, vec!["deck", "img"]);
    let bad = vec!["web".to_string(), "nope".to_string(), "gone".to_string()];
    assert_eq!(
        campaign_targets(&registry(), &bad).err().as_deref(),
        Some("unknown campaign artifact id: nope")
    );
    assert_eq!(
        check_campaign_targets(&Vec::new()),
        Err("campaign plan needs at least one editable artifact".to_string())
    );
}

#[test]
fn campaign_sources_by_kind() {
    let html = campaign_fixture_source(
        &ArtifactKind::Html,
        "web/index.html",
        "<body></body>",
        "Launch a coherent AI design campaign",
        0,
    )
    .expect("html");
    assert!(html.contains("<p>Launch a coherent AI design campaign</p>"));
    let json = campaign_fixture_source(&ArtifactKind::PosterJson, "p.json", "{\"a\":1}", "Brief", 0).expect("json");
    let value: serde_json::Value = serde_json::from_str(&json).expect("parse");
    assert_eq!(value["capy_campaign_brief"], "Brief");
    assert_eq!(value["capy_campaign_status"], "fixture-proposed");
    assert!(!json.ends_with('\n'));
    let array = campaign_fixture_source(&ArtifactKind::PptJson, "d.json", "[1]", "Brief", 0).expect("array");
    assert_eq!(array, "[\n  1\n]");
    let bad = campaign_fixture_source(&ArtifactKind::PptJson, "d.json", "{", "B", 0).err().expect("err");
    assert!(bad.starts_with("parse campaign JSON artifact d.json: "));
}

#[test]
fn campaign_patch_replaces_whole_source() {
    let p = campaign_patch("proj", "campplan_1", "web", "web/index.html", "old".to_string(), "new".to_string());
    assert_eq!(p.actor.as_deref(), Some("project-campaign:fixture"));
    assert_eq!(p.input_context_ref.as_deref(), Some("campplan_1"));
    assert_eq!(p.operations[0].old_text, "old");
    assert_eq!(p.operations[0].new_text, "new");
    assert_eq!(campaign_prompt("b"), "Campaign brief: b");
}
