use capy_core::project::model::{ArtifactKind, ContextBuildRequest};
use capy_core::project::selection::{build_selection_context, selected_html_text};

fn request(selector: Option<&str>, canvas_node: Option<&str>, json_pointer: Option<&str>) -> ContextBuildRequest {
    ContextBuildRequest {
        artifact_id: "art_1".to_string(),
        selector: selector.map(|s| s.to_string()),
        canvas_node: canvas_node.map(|s| s.to_string()),
        json_pointer: json_pointer.map(|s| s.to_string()),
    }
}

#[test]
fn resolves_html_data_capy_section() {
    let source = r#"<main><h1 data-capy-section="hero-title">Draft Title</h1></main>"#;
    let context = build_selection_context(
        "art_1",
        &ArtifactKind::Html,
        "web/index.html",
        &request(Some("[data-capy-section=\"hero-title\"]"), Some("node-1"), None),
        source,
    )
    .expect("missing selection context");
    assert_eq!(context.kind, "html-section");
    assert_eq!(context.scope, "sub-artifact");
    assert_eq!(context.selected_text.as_deref(), Some("Draft Title"));
    assert_eq!(context.surface_node_id.as_deref(), Some("node-1"));
    assert_eq!(context.schema_version, "capy.selection-context.v1");
    assert_eq!(context.verification_requirements.len(), 2);
}

#[test]
fn resolves_json_pointer() {
    let source = r#"{"pages":[{"title":"Launch"}]}"#;
    let context = build_selection_context(
        "art_1",
        &ArtifactKind::PosterJson,
        "poster/poster.json",
        &request(None, None, Some("/pages/0/title")),
        source,
    )
    .expect("missing selection context");
    assert_eq!(context.kind, "json-pointer");
    assert_eq!(context.selected_text.as_deref(), Some("\"Launch\""));
    assert_eq!(context.selected_json.as_deref(), Some("\"Launch\""));
}

#[test]
fn html_section_text_strips_tags_and_trims() {
    let source = "<div data-capy-section=\"cta\" class=\"x\">  Buy <b>now</b> \n</div>";
    assert_eq!(
        selected_html_text(source, "[data-capy-section=\"cta\"]").as_deref(),
        Some("Buy now")
    );
    assert_eq!(selected_html_text(source, "#cta"), None);
    assert_eq!(selected_html_text(source, "[data-capy-section=\"other\"]"), None);
    assert_eq!(
        selected_html_text("<p data-capy-section=\"e\"> <i></i> </p>", "[data-capy-section=\"e\"]"),
        None
    );
    assert_eq!(
        selected_html_text("<p data-capy-section=\"open\">never closed", "[data-capy-section=\"open\"]"),
        None
    );
}

#[test]
fn unresolved_selections_fall_back_to_file() {
    let html = build_selection_context(
        "art_1",
        &ArtifactKind::Html,
        "web/index.html",
        &request(Some("[data-capy-section=\"missing\"]"), None, None),
        "<main></main>",
    )
    .expect("context");
    assert_eq!(html.scope, "artifact");
    assert_eq!(html.kind, "file");
    assert_eq!(
        html.fallback_reason.as_deref(),
        Some("selector [data-capy-section=\"missing\"] did not resolve in source")
    );
    let not_html = build_selection_context(
        "art_1",
        &ArtifactKind::Markdown,
        "a.md",
        &request(Some("#x"), None, None),
        "",
    )
    .expect("context");
    assert_eq!(
        not_html.fallback_reason.as_deref(),
        Some("selector #x is only deeply supported for html artifacts")
    );
    let not_json = build_selection_context(
        "art_1",
        &ArtifactKind::PosterJson,
        "p.json",
        &request(None, None, Some("/a")),
        "not json",
    )
    .expect("context");
    assert_eq!(
        not_json.fallback_reason.as_deref(),
        Some("json pointer /a requires a JSON artifact source")
    );
    assert_eq!(not_json.json_pointer, None);
    let missing = build_selection_context(
        "art_1",
        &ArtifactKind::PosterJson,
        "p.json",
        &request(None, None, Some("/b")),
        "{\"a\":1}",
    )
    .expect("context");
    assert_eq!(missing.fallback_reason.as_deref(), Some("json pointer /b did not resolve"));
    assert_eq!(missing.json_pointer.as_deref(), Some("/b"));
}

#[test]
fn canvas_node_or_nothing() {
    let c = build_selection_context("art_1", &ArtifactKind::Html, "i.html", &request(None, Some("n-2"), None), "")
        .expect("context");
    assert_eq!(c.kind, "canvas-node");
    assert_eq!(c.surface_node_id.as_deref(), Some("n-2"));
    assert!(build_selection_context("art_1", &ArtifactKind::Html, "i.html", &request(None, None, None), "").is_none());
}
