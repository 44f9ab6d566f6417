use capy_core::project::ai::{
    ai_prompt_text, ai_response_patch, bounded_design_source, check_ai_response,
    check_ai_source_path, design_asset_refs, AiPromptInputs, ProjectAiArtifactV1,
    ProjectAiResponseV1,
};
use capy_core::project::model::{DesignLanguageAssetV1, DesignLanguageSummaryV1};

fn response(schema: &str, artifacts: Vec<(&str, &str, &str)>) -> ProjectAiResponseV1 {
    ProjectAiResponseV1 {
        schema_version: schema.to_string(),
        summary_zh: "改了标题".to_string(),
        artifacts: artifacts
            .into_iter()
            .map(|(id, path, source)| ProjectAiArtifactV1 {
                artifact_id: id.to_string(),
                source_path: path.to_string(),
                new_source: source.to_string(),
            })
            .collect(),
        verify_notes: Vec::new(),
    }
}

fn tokens_asset() -> DesignLanguageAssetV1 {
    DesignLanguageAssetV1 {
        id: "dl_tokens".to_string(),
        kind: "css".to_string(),
        role: Some("tokens".to_string()),
        path: "tokens.css".to_string(),
        title: "Tokens".to_string(),
        description: None,
    }
}

fn summary() -> DesignLanguageSummaryV1 {
    DesignLanguageSummaryV1 {
        name: "Project Design Language".to_string(),
        version: "0.1.0".to_string(),
        summary: "".to_string(),
        design_language_ref: "dlref-fnv1a64-0".to_string(),
        asset_count: 1,
        token_count: 1,
        reference_image_count: 0,
        rule_count: 0,
        example_count: 0,
    }
}

#[test]
fn ai_response_becomes_exact_text_patch() {
    let generated = check_ai_response(
        response(
            "capy.project-ai-response.v1",
            vec![("art_1", "index.html", "<h1>After</h1>")],
        ),
        "art_1",
    )
    .expect("valid response");
    check_ai_source_path(&generated.source_path, "index.html").expect("same path");
    let patch = ai_response_patch(
        "art_1",
        "index.html",
        "<h1>Before</h1>".to_string(),
        generated.new_source,
        "proj_1",
        Some("ctx_1".to_string()),
        "test".to_string(),
    )
    .expect("patch");
    assert_eq!(patch.operations.len(), 1);
    assert_eq!(patch.operations[0].old_text, "<h1>Before</h1>");
    assert_eq!(patch.operations[0].new_text, "<h1>After</h1>");
    assert_eq!(patch.operations[0].op, "replace_exact_text");
    assert_eq!(patch.schema_version, "capy.patch.v1");
    assert_eq!(patch.input_context_ref.as_deref(), Some("ctx_1"));
}

#[test]
fn ai_response_problems_in_order() {
    let err = |r: ProjectAiResponseV1| check_ai_response(r, "art_1").err().expect("error");
    assert_eq!(
        err(response("v0", vec![])),
        "unsupported project AI response schema_version: v0"
    );
    assert_eq!(
        err(response("capy.project-ai-response.v1", vec![])),
        "project AI response must contain exactly one artifact, got 0"
    );
    assert_eq!(
        err(response(
            "capy.project-ai-response.v1",
            vec![("art_2", "a", "x")]
        )),
        "project AI response artifact art_2 does not match target art_1"
    );
    assert_eq!(
        err(response(
            "capy.project-ai-response.v1",
            vec![("art_1", "a", "  \n")]
        )),
        "project AI response new_source must not be empty"
    );
    assert_eq!(
        check_ai_source_path("b.html", "a.html"),
        Err("project AI response source_path b.html does not match artifact source_path a.html".to_string())
    );
    assert_eq!(
        ai_response_patch("a", "p", "same".to_string(), "same".to_string(), "proj", None, "t".to_string())
            .err()
            .as_deref(),
        Some("project AI response did not change the source")
    );
}

#[test]
fn ai_prompt_includes_design_language_and_source() {
    let asset = tokens_asset();
    let refs = design_asset_refs(&[asset.clone()]);
    assert_eq!(refs, "- id: dl_tokens; role: tokens; kind: css; path: tokens.css; title: Tokens");
    let source = bounded_design_source(&asset, ":root { --brand: red; }");
    assert_eq!(
        source,
        "### Tokens (css, role tokens, id dl_tokens, path tokens.css)\n:root { --brand: red; }\n"
    );
    let inputs = AiPromptInputs {
        project_name: "AI Prompt Test".to_string(),
        project_id: "proj_1".to_string(),
        artifact_id: "art_1".to_string(),
        artifact_kind: "html".to_string(),
        source_path: "index.html".to_string(),
        artifact_title: "Home".to_string(),
        user_prompt: "Improve the headline".to_string(),
        design_asset_refs: refs,
        design_sources: source,
        current_source: "<h1>Before</h1>".to_string(),
    };
    let prompt = ai_prompt_text(&inputs, &summary());
    assert!(prompt.contains(":root { --brand: red; }"));
    assert!(prompt.contains("<h1>Before</h1>"));
    assert!(prompt.contains("Improve the headline"));
    assert!(prompt.contains("----- BEGIN index.html -----\n<h1>Before</h1>\n----- END index.html -----"));
    assert!(prompt.contains("- asset_count: 1\n- token_count: 1\n"));
    assert!(prompt.starts_with("You are Capybara Project AI."));
}

#[test]
fn prompt_placeholders_and_long_sources() {
    let inputs = AiPromptInputs {
        project_name: "P".to_string(),
        project_id: "p".to_string(),
        artifact_id: "a".to_string(),
        artifact_kind: "html".to_string(),
        source_path: "i.html".to_string(),
        artifact_title: "T".to_string(),
        user_prompt: "u".to_string(),
        design_asset_refs: String::new(),
        design_sources: String::new(),
        current_source: String::new(),
    };
    let prompt = ai_prompt_text(&inputs, &summary());
    assert!(prompt.contains("(No design-language asset refs selected.)"));
    assert!(prompt.contains("(No design-language files registered.)"));
    let mut asset = tokens_asset();
    asset.role = None;
    let long = "é".repeat(2500);
    let quoted = bounded_design_source(&asset, &long);
    assert!(quoted.starts_with("### Tokens (css, role context, id dl_tokens, path tokens.css)\n"));
    assert!(quoted.ends_with("...\n[truncated to 2400 chars]\n"));
    assert_eq!(quoted.matches('é').count(), 2400);
    assert_eq!(design_asset_refs(&[]), "");
    let two = design_asset_refs(&[tokens_asset(), tokens_asset()]);
    assert_eq!(two.lines().count(), 2);
}
