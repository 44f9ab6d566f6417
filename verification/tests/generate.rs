use capy_core::project::generate::{
    check_generate_run_project, command_preview, copy_artifact, find_artifact, fixture_source,
    generate_plan, live_prompt, mark_generated_artifact, plan_message, replace_text,
    validate_request, ProjectGenerateRequestV1,
};
use capy_core::project::model::{ArtifactKind, ArtifactRefV1};

fn request(artifact_id: &str, provider: &str, prompt: &str, dry_run: bool) -> ProjectGenerateRequestV1 {
    ProjectGenerateRequestV1 {
        artifact_id: artifact_id.to_string(),
        provider: provider.to_string(),
        prompt: prompt.to_string(),
        dry_run,
        review: false,
    }
}

fn artifact(id: &str) -> ArtifactRefV1 {
    ArtifactRefV1 {
        id: id.to_string(),
        kind: ArtifactKind::Html,
        title: "Home".to_string(),
        source_path: "web/index.html".to_string(),
        source_refs: Vec::new(),
        output_refs: Vec::new(),
        design_language_refs: Vec::new(),
        asset_refs: Vec::new(),
        provenance: None,
        evidence_refs: Vec::new(),
        updated_at: 1,
    }
}

const PROVIDERS: [&str; 3] = ["fixture", "alpha", "beta"];

#[test]
fn requests_are_checked_in_order() {
    assert_eq!(
        validate_request(&request(" ", "fixture", "p", false), &PROVIDERS),
        Err("artifact id is required".to_string())
    );
    assert_eq!(
        validate_request(&request("a", "fixture", "  ", false), &PROVIDERS),
        Err("prompt is required".to_string())
    );
    assert_eq!(
        validate_request(&request("a", "gamma", "p", false), &PROVIDERS),
        Err("invalid provider gamma; expected fixture, alpha, or beta".to_string())
    );
    assert_eq!(validate_request(&request("a", "beta", "p", true), &PROVIDERS), Ok(()));
    assert_eq!(
        validate_request(&request("a", "x", "p", true), &["fixture", "alpha"]),
        Err("invalid provider x; expected fixture or alpha".to_string())
    );
    assert_eq!(
        validate_request(&request("a", "x", "p", true), &["a", "b", "c", "d"]),
        Err("invalid provider x; expected a, b, c, or d".to_string())
    );
}

#[test]
fn command_previews() {
    assert_eq!(
        command_preview("fixture", "/p", "art_1", "web/index.html", "x"),
        vec!["capy", "project", "generate", "--provider", "fixture", "--artifact", "art_1"]
    );
    let live = command_preview("alpha", "/tmp/proj", "art_1", "web/index.html", "Make it blue");
    assert_eq!(live.len(), 11);
    assert_eq!(live[0], "target/debug/capy");
    assert_eq!(live[5], "alpha");
    assert_eq!(live[7], "/tmp/proj");
    assert_eq!(
        live[10],
        "Use Capybara project context. Update only artifact art_1 at web/index.html. User request: Make it blue"
    );
    assert_eq!(live_prompt("a", "b", "c"), "Use Capybara project context. Update only artifact a at b. User request: c");
}

#[test]
fn only_fixture_writes() {
    assert_eq!(generate_plan(&request("a", "fixture", "p", false)), (true, "completed"));
    assert_eq!(generate_plan(&request("a", "fixture", "p", true)), (false, "planned"));
    assert_eq!(generate_plan(&request("a", "alpha", "p", false)), (false, "completed"));
    assert!(plan_message().starts_with("No source file was changed."));
}

#[test]
fn fixture_edits_by_kind() {
    let html = fixture_source(
        &ArtifactKind::Html,
        "web/index.html",
        "<body><h1>x</h1></body>",
        "Make <b>launch</b> copy clearer",
        0,
    )
    .expect("html");
    assert_eq!(
        html,
        "<body><h1>x</h1>  <section data-capy-generated=\"fixture\"><h2>Capybara CLI draft</h2><p>Make &lt;b&gt;launch&lt;/b&gt; copy clearer</p></section>\n</body>"
    );
    assert!(html.contains("Capybara CLI draft"));
    let md = fixture_source(&ArtifactKind::Markdown, "a.md", "# T", "p", 0).expect("md");
    assert_eq!(md, "# T\n\n## Capybara CLI Draft\n\np\n");
    let svg = fixture_source(&ArtifactKind::Image, "a.svg", "<svg></svg>", "a>b", 0).expect("svg");
    assert_eq!(svg, "<svg><desc>Capybara fixture generation: a&gt;b</desc></svg>");
    let other = fixture_source(&ArtifactKind::Css, "a.css", "body{}", "p", 0).expect("css");
    assert_eq!(other, "body{}\n\nCapybara fixture generation: p\n");
    let json = fixture_source(&ArtifactKind::PosterJson, "p.json", "{\"pages\":[]}", "p", 42).expect("json");
    let value: serde_json::Value = serde_json::from_str(&json).expect("json out");
    assert_eq!(value["capy_generation"]["provider"], "fixture");
    assert_eq!(value["capy_generation"]["generated_at"], 42);
    assert!(json.ends_with("\n"));
    let bad = fixture_source(&ArtifactKind::PptJson, "d.json", "not json", "p", 0).err().expect("err");
    assert!(bad.starts_with("parse artifact JSON d.json: "));
}

#[test]
fn replace_every_occurrence() {
    assert_eq!(replace_text("a</body>b</body>", "</body>", "X"), "aXbX");
    assert_eq!(replace_text("aaa", "aa", "b"), "ba");
    assert_eq!(replace_text("none", "</svg>", "X"), "none");
}

#[test]
fn generation_run_is_recorded_on_artifact() {
    let mut artifacts = vec![artifact("art_1"), artifact("art_2")];
    let marked = mark_generated_artifact(&mut artifacts, "art_2", ".capy/runs/gen_1.json", 99).expect("marked");
    assert_eq!(marked.evidence_refs, vec![".capy/runs/gen_1.json".to_string()]);
    assert_eq!(marked.updated_at, 99);
    let provenance: serde_json::Value = serde_json::from_str(marked.provenance.as_deref().expect("p")).expect("json");
    assert_eq!(provenance["source"], "capy.project.generate");
    assert_eq!(provenance["last_run"], ".capy/runs/gen_1.json");
    assert_eq!(artifacts[1].evidence_refs.len(), 1);
    assert_eq!(artifacts[0].updated_at, 1);
    let again = mark_generated_artifact(&mut artifacts, "art_2", ".capy/runs/gen_1.json", 100).expect("again");
    assert_eq!(again.evidence_refs.len(), 1);
    let err = mark_generated_artifact(&mut artifacts, "art_9", "r", 1).err();
    assert_eq!(err.as_deref(), Some("unknown artifact id: art_9"));
    assert_eq!(find_artifact(&artifacts, "art_1"), Some(0));
    assert_eq!(copy_artifact(&artifacts[0]).id, "art_1");
    assert_eq!(
        check_generate_run_project("p1", "p2"),
        Err("generate run project_id p1 does not match p2".to_string())
    );
}

#[test]
fn json_generation_record_needs_object_or_null() {
    let null = fixture_source(&ArtifactKind::PptJson, "d.json", "null", "p", 7).expect("null");
    let v: serde_json::Value = serde_json::from_str(&null).expect("json");
    assert_eq!(v["capy_generation"]["generated_at"], 7);
    assert_eq!(v["capy_generation"]["provider"], "fixture");
    assert!(null.ends_with("}\n"));
    assert_eq!(
        fixture_source(&ArtifactKind::PptJson, "d.json", "[]", "p", 7).unwrap_err(),
        "parse artifact JSON d.json: the artifact JSON is neither an object nor null"
    );
    assert!(fixture_source(&ArtifactKind::CompositionJson, "c.json", "42", "p", 7).is_err());
    assert!(fixture_source(&ArtifactKind::PosterJson, "c.json", "{", "p", 7).unwrap_err().starts_with("parse artifact JSON c.json: "));
}

#[test]
fn replace_text_with_empty_pattern_interleaves() {
    assert_eq!(replace_text("abc", "", "X"), "XaXbXcX");
    assert_eq!(replace_text("", "", "X"), "X");
}
