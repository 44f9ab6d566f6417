use capy_core::project::context::build_context;
use capy_core::project::model::{
    ArtifactKind, ArtifactRefV1, ContextBuildRequest, DesignLanguageAssetV1, DesignLanguageManifestV1,
    DesignLanguageSummaryV1,
};

fn manifest() -> DesignLanguageManifestV1 {
    DesignLanguageManifestV1 {
        schema_version: "capy.design-language.v1".to_string(),
        id: "dlpkg_default".to_string(),
        name: "Project Design Language".to_string(),
        version: "0.1.0".to_string(),
        summary: "s".to_string(),
        updated_at: 0,
        assets: vec![
            DesignLanguageAssetV1 {
                id: "dl_tokens".to_string(),
                kind: "css".to_string(),
                role: Some("tokens".to_string()),
                path: "tokens.css".to_string(),
                title: "Tokens".to_string(),
                description: None,
            },
            DesignLanguageAssetV1 {
                id: "dl_rules".to_string(),
                kind: "md".to_string(),
                role: Some("rules".to_string()),
                path: "style-guide.txt".to_string(),
                title: "Rules".to_string(),
                description: None,
            },
        ],
    }
}

fn summary() -> DesignLanguageSummaryV1 {
    DesignLanguageSummaryV1 {
        name: "Project Design Language".to_string(),
        version: "0.1.0".to_string(),
        summary: "s".to_string(),
        design_language_ref: "dlref-x".to_string(),
        asset_count: 2,
        token_count: 1,
        reference_image_count: 0,
        rule_count: 1,
        example_count: 0,
    }
}

fn home() -> ArtifactRefV1 {
    ArtifactRefV1 {
        id: "art_home".to_string(),
        kind: ArtifactKind::Html,
        title: "Home".to_string(),
        source_path: "index.html".to_string(),
        source_refs: Vec::new(),
        output_refs: Vec::new(),
        design_language_refs: vec!["dl_tokens".to_string()],
        asset_refs: Vec::new(),
        provenance: None,
        evidence_refs: Vec::new(),
        updated_at: 0,
    }
}

#[test]
fn project_context_includes_artifact_and_design_assets() {
    let request = ContextBuildRequest {
        artifact_id: "art_home".to_string(),
        selector: Some("h1".to_string()),
        canvas_node: Some("42".to_string()),
        json_pointer: None,
    };
    let context = build_context(
        "proj_1",
        &request,
        &[home()],
        &manifest(),
        summary(),
        "<h1>Hello</h1>",
        "ctx_1".to_string(),
        5,
    )
    .expect("context");
    assert_eq!(context.selector.as_deref(), Some("h1"));
    assert_eq!(context.design_language_refs.len(), 1);
    assert_eq!(context.design_language_refs[0].id, "dl_tokens");
    assert_eq!(context.schema_version, "capy.context.v1");
    assert_eq!(context.design_language_ref, "dlref-x");
    assert_eq!(context.verification_requirements.len(), 2);
    let selection = context.selection_context.expect("selection");
    assert_eq!(selection.kind, "file");
    assert_eq!(selection.fallback_reason.as_deref(), Some("selector h1 did not resolve in source"));
    assert_eq!(selection.surface_node_id.as_deref(), Some("42"));
}

#[test]
fn context_for_unknown_artifact_is_refused() {
    let request = ContextBuildRequest {
        artifact_id: "art_x".to_string(),
        selector: None,
        canvas_node: None,
        json_pointer: None,
    };
    let err = build_context("p", &request, &[home()], &manifest(), summary(), "", "c".to_string(), 0).err();
    assert_eq!(err.as_deref(), Some("unknown artifact id: art_x"));
    let mut uncited = home();
    uncited.design_language_refs.clear();
    let request = ContextBuildRequest { artifact_id: "art_home".to_string(), ..request };
    let all = build_context("p", &request, &[uncited], &manifest(), summary(), "", "c".to_string(), 0).expect("ok");
    assert_eq!(all.design_language_refs.len(), 2);
    assert!(all.selection_context.is_none());
}
