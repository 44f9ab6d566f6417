use capy_core::project::clips::{
    action_label, classify_feedback, clip_duration, default_decision_reason, normalize_decision,
    rhythm_for_duration, tags_for, use_case_for,
};
use capy_core::project::design::{
    asset_status, count_class, design_language_summary, design_language_validation, design_language_validation_errors,
    is_example, is_reference_image, is_rule, is_token, selected_design_assets, validate_design_refs,
    AssetClass, AssetProbe,
};
use capy_core::project::dlref::{asset_id_order, design_language_ref};
use capy_core::project::hash::{
    clip_semantic_key, feedback_id, fnv1a64, hex16_chars, semantic_id, source_hash, Fnv1a64,
};
use capy_core::project::ids::{
    file_url, is_campaign_kind, nonempty, safe_path_id, safe_slug_id, strip_json_fence, strip_tags,
    surface_node_id,
};
use capy_core::project::model::{ArtifactKind, DesignLanguageAssetV1, DesignLanguageManifestV1};
use capy_core::project::order::dedupe_sorted;
use capy_core::project::patch::{
    check_operation, check_patch_header, count_matches, replace_unique, reverse_patch, stage_operation, stage_patch,
    PatchDocumentV1, ReplaceExactTextOperationV1,
};
use capy_core::project::review::{
    changed_preview, check_source_hash, decision, diff_summary_from_patch, lines, normalize_run_id, proposal_review, review_step,
    truncate, HashCheck, ReviewAction,
};
use capy_core::project::runs::{initial_design_language, new_id, patch_run_record};
use capy_core::project::workbench::missing_card;

fn op(old: &str, new: &str) -> ReplaceExactTextOperationV1 {
    ReplaceExactTextOperationV1 {
        op: "replace_exact_text".to_string(),
        artifact_id: "art_1".to_string(),
        source_path: None,
        old_text: old.to_string(),
        new_text: new.to_string(),
        selector_hint: None,
    }
}

fn patch(ops: Vec<ReplaceExactTextOperationV1>) -> PatchDocumentV1 {
    PatchDocumentV1 {
        schema_version: "capy.patch.v1".to_string(),
        project_id: None,
        input_context_ref: None,
        actor: None,
        operations: ops,
    }
}

fn asset(id: &str, kind: &str, role: Option<&str>, path: &str, title: &str) -> DesignLanguageAssetV1 {
    DesignLanguageAssetV1 {
        id: id.to_string(),
        kind: kind.to_string(),
        role: role.map(|r| r.to_string()),
        path: path.to_string(),
        title: title.to_string(),
        description: None,
    }
}

fn manifest(assets: Vec<DesignLanguageAssetV1>) -> DesignLanguageManifestV1 {
    let mut m = initial_design_language(0);
    m.assets = assets;
    m
}

#[test]
fn review_requires_single_operation() {
    let error = diff_summary_from_patch(&patch(Vec::new())).err();
    assert!(format!("{error:?}").contains("exactly one operation"));
}

#[test]
fn apply_requires_unique_old_text() {
    let error = replace_unique("art_1", "Same Same", "Same", "After").err();
    assert!(format!("{error:?}").contains("expected one match, found 2"));
}

#[test]
fn replace_edits_the_single_match() {
    assert_eq!(replace_unique("art_1", "<h1>Before</h1>", "Before", "After").unwrap(), "<h1>After</h1>");
    assert_eq!(
        replace_unique("art_9", "abc", "x", "y").unwrap_err(),
        "replace_exact_text for artifact art_9 expected one match, found 0"
    );
    assert_eq!(count_matches("aaaa", "aa"), 2);
    assert_eq!(count_matches("aaa", "aa"), 1);
    assert_eq!(count_matches("abc", ""), 0);
}

#[test]
fn undo_patch_restores_the_source() {
    let source = "<h1>Before</h1><p>x</p>";
    let forward = patch(vec![op("Before", "After")]);
    let edited = replace_unique("art_1", source, "Before", "After").unwrap();
    let back = reverse_patch(&forward, "pm".to_string()).unwrap();
    assert_eq!(back.actor.as_deref(), Some("pm"));
    let o = &back.operations[0];
    assert_eq!((o.old_text.as_str(), o.new_text.as_str()), ("After", "Before"));
    assert_eq!(replace_unique("art_1", &edited, &o.old_text, &o.new_text).unwrap(), source);
    assert!(reverse_patch(&patch(vec![op("a", "b"), op("c", "d")]), "pm".to_string()).is_err());
}

#[test]
fn patch_checks_report_exact_messages() {
    let mut p = patch(vec![op("a", "b")]);
    assert!(check_patch_header(&p, "proj_1").is_ok());
    p.project_id = Some("proj_2".to_string());
    assert_eq!(check_patch_header(&p, "proj_1").unwrap_err(), "patch project_id proj_2 does not match proj_1");
    p.schema_version = "capy.patch.v0".to_string();
    assert_eq!(check_patch_header(&p, "proj_1").unwrap_err(), "unsupported patch schema_version: capy.patch.v0");
    assert_eq!(check_patch_header(&patch(vec![]), "p").unwrap_err(), "patch operations must not be empty");
    let mut o = op("", "b");
    assert_eq!(check_operation(&o).unwrap_err(), "replace_exact_text old_text must not be empty");
    o.op = "delete".to_string();
    assert_eq!(check_operation(&o).unwrap_err(), "unsupported patch op: delete");
}

#[test]
fn patch_run_lists_changed_artifacts_sorted_once() {
    let run = patch_run_record(
        "proj_1".to_string(),
        None,
        None,
        Some(".capy/runs/gen.json".to_string()),
        vec!["b".to_string(), "a".to_string(), "b".to_string()],
        true,
        42,
    );
    assert_eq!(run.changed_artifact_refs, vec!["a".to_string(), "b".to_string()]);
    assert_eq!(run.status, "dry-run");
    assert_eq!(run.actor, "cli");
    assert_eq!(run.patch_refs, vec![".capy/runs/gen.json".to_string()]);
    assert!(run.id.starts_with("run_") && run.id.len() == 36);
    assert!(run.trace_id.starts_with("trace_"));
    let id = new_id("x");
    assert!(id.len() == 34 && id[2..].chars().all(|c| c.is_ascii_hexdigit() && !c.is_ascii_uppercase()));
    assert_ne!(new_id("x"), new_id("x"));
}

#[test]
fn dedupe_sorts_by_code_point() {
    assert_eq!(
        dedupe_sorted(vec!["b".into(), "B".into(), "ab".into(), "a".into(), "b".into()]),
        vec!["B".to_string(), "a".to_string(), "ab".to_string(), "b".to_string()]
    );
    assert_eq!(dedupe_sorted(vec![]), Vec::<String>::new());
}

#[test]
fn fnv_hashes_match_known_values() {
    assert_eq!(fnv1a64(b""), 0xcbf29ce484222325);
    assert_eq!(fnv1a64(b"a"), 0xaf63dc4c8601ec8c);
    assert_eq!(source_hash(""), "fnv1a64-cbf29ce484222325");
    assert_eq!(source_hash("a"), "fnv1a64-af63dc4c8601ec8c");
    assert_eq!(hex16_chars(255).into_iter().collect::<String>(), "00000000000000ff");
    let mut h = Fnv1a64::new();
    h.write(b"a");
    assert_eq!(h.finish(), fnv1a64(b"a"));
    let mut h = Fnv1a64::new();
    h.write_str("a");
    assert_eq!(h.finish(), fnv1a64(b"a\0"));
    assert_eq!(clip_semantic_key(" comp.json ", " c1", 0, 1500), "comp.json|c1|0|1500");
    assert_eq!(feedback_id("k"), format!("feedback-fnv1a64-{:016x}", fnv1a64(b"k")));
    assert_eq!(
        semantic_id("comp.json", "c1", 0, 1500),
        format!("sem-fnv1a64-{:016x}", fnv1a64(b"comp.json|c1|0|1500"))
    );
}

#[test]
fn artifact_kinds_round_trip() {
    let all = [
        ArtifactKind::Html,
        ArtifactKind::Css,
        ArtifactKind::Js,
        ArtifactKind::Markdown,
        ArtifactKind::Image,
        ArtifactKind::Audio,
        ArtifactKind::Video,
        ArtifactKind::PosterJson,
        ArtifactKind::PptJson,
        ArtifactKind::CompositionJson,
        ArtifactKind::Other,
    ];
    for k in all {
        assert_eq!(ArtifactKind::parse(k.as_str()).unwrap(), k);
    }
    assert_eq!("deck_json".parse::<ArtifactKind>().unwrap(), ArtifactKind::PptJson);
    assert_eq!(ArtifactKind::parse("javascript").unwrap(), ArtifactKind::Js);
    assert_eq!(ArtifactKind::parse("pdf").unwrap_err(), "invalid artifact kind: pdf");
    assert!(is_campaign_kind(&ArtifactKind::PosterJson));
    assert!(!is_campaign_kind(&ArtifactKind::Css));
}

#[test]
fn design_assets_are_classified_and_counted() {
    let tokens = asset("dl_1", "css", Some("tokens"), "tokens.css", "Tokens");
    let rule = asset("dl_2", "text", Some("anti-slop-rule"), "rules.txt", "Rules");
    let image = asset("dl_3", "png", None, "ref.png", "Reference");
    let example = asset("dl_4", "html", None, "ex.html", "Example TOKEN sheet");
    assert!(is_token(&tokens) && !is_token(&rule) && !is_token(&image) && is_token(&example));
    assert!(is_rule(&rule) && !is_rule(&tokens));
    assert!(is_reference_image(&image));
    assert!(is_example(&example));
    let m = manifest(vec![tokens, rule, image, example]);
    assert_eq!(count_class(&m.assets, AssetClass::Token), 2);
    let s = design_language_summary(&m, "dlpkg-fnv1a64-0".to_string());
    assert_eq!(
        (s.asset_count, s.token_count, s.reference_image_count, s.rule_count, s.example_count),
        (4, 2, 1, 1, 1)
    );
    assert_eq!(s.name, "Project Design Language");
}

#[test]
fn artifacts_cite_design_assets_by_id() {
    let m = manifest(vec![
        asset("dl_1", "css", None, "a.css", "A"),
        asset("dl_2", "css", None, "b.css", "B"),
    ]);
    let all = selected_design_assets(&m, &[]);
    assert_eq!(all.len(), 2);
    let some = selected_design_assets(&m, &["dl_2".to_string()]);
    assert_eq!(some.len(), 1);
    assert_eq!(some[0].id, "dl_2");
    assert!(validate_design_refs(&m, &["dl_1".to_string()]).is_ok());
    assert_eq!(
        validate_design_refs(&m, &["x".to_string(), "dl_2".to_string(), "y".to_string()]).unwrap_err(),
        "unknown design language refs: x, y"
    );
}

#[test]
fn validation_reports_missing_assets() {
    let a = asset("dl_1", "css", Some("tokens"), "tokens.css", "Tokens");
    let m = manifest(vec![a.clone()]);
    let status = asset_status(&a, AssetProbe::Missing("No such file".to_string()));
    assert!(!status.exists);
    let errors = design_language_validation_errors(&m, &vec![status]);
    assert!(errors.iter().any(|e| e.contains(&a.path)));
    let ok = asset_status(&a, AssetProbe::File(23));
    assert_eq!(ok.bytes, Some(23));
    assert!(design_language_validation_errors(&m, &vec![ok]).is_empty());
    let mut blank = manifest(vec![]);
    blank.name = "  ".to_string();
    assert_eq!(
        design_language_validation_errors(&blank, &vec![]),
        vec![
            "design language name is required".to_string(),
            "at least one design language asset is required".to_string()
        ]
    );
    let nf = asset_status(&a, AssetProbe::NotFile);
    assert_eq!(nf.error.as_deref(), Some("design language asset is not a file: tokens.css"));
}

#[test]
fn validation_reports_stable_ref_and_asset_counts() {
    let m = manifest(vec![
        asset("dl_b", "css", Some("tokens"), "b.css", "B"),
        asset("dl_a", "css", Some("tokens"), "a.css", "A"),
    ]);
    let contents = vec![Some(b":root{}".to_vec()), None];
    let first = design_language_ref(&m, &contents);
    let second = design_language_ref(&m, &contents);
    assert_eq!(first, second);
    assert!(first.starts_with("dlpkg-fnv1a64-") && first.len() == 30);
    assert_eq!(asset_id_order(&m.assets), vec![1, 0]);
    let summary = design_language_summary(&m, first);
    assert_eq!(summary.token_count, 2);

    let mut h = Fnv1a64::new();
    for f in [&m.schema_version, &m.id, &m.name, &m.version, &m.summary] {
        h.write_str(f);
    }
    for (a, c) in [(&m.assets[1], &contents[1]), (&m.assets[0], &contents[0])] {
        for f in [&a.id, &a.kind, a.role.as_ref().unwrap(), &a.path, &a.title] {
            h.write_str(f);
        }
        h.write_str("");
        match c {
            Some(b) => h.write(b),
            None => h.write_str("<missing>"),
        }
    }
    assert_eq!(design_language_ref(&m, &contents), format!("dlpkg-fnv1a64-{:016x}", h.finish()));
}

#[test]
fn diff_summary_counts_changed_lines() {
    let p = patch(vec![op("a\nb\nc\n", "a\nB\nX\nc")]);
    let d = diff_summary_from_patch(&p).unwrap();
    assert_eq!((d.removed_lines, d.added_lines), (1, 2));
    assert_eq!(d.old_preview.as_deref(), Some("b"));
    assert_eq!(d.new_preview.as_deref(), Some("B"));
    assert!(d.changed);
    assert_eq!(d.old_bytes, 6);
    assert_eq!(d.old_hash, source_hash("a\nb\nc\n"));
    let same = diff_summary_from_patch(&patch(vec![op("x", "x")])).unwrap();
    assert!(!same.changed);
    assert_eq!((same.removed_lines, same.added_lines), (0, 0));
    assert_eq!(same.old_preview, None);
}

#[test]
fn lines_follow_str_lines() {
    for text in ["", "a", "a\n", "a\r\nb", "\n\nx", "a\rb\n", "x\r"] {
        let chars: Vec<char> = text.chars().collect();
        let got: Vec<String> = lines(&chars).into_iter().map(|l| l.into_iter().collect()).collect();
        let want: Vec<String> = text.lines().map(|l| l.to_string()).collect();
        assert_eq!(got, want, "{text:?}");
    }
}

#[test]
fn previews_are_trimmed_and_cut() {
    assert_eq!(truncate("abcdef", 3), "abc...");
    assert_eq!(truncate("abc", 3), "abc");
    let long: Vec<Vec<char>> = vec![format!("  {}  ", "x".repeat(200)).chars().collect()];
    assert_eq!(changed_preview(&long, 0).unwrap(), format!("{}...", "x".repeat(160)));
    assert_eq!(changed_preview(&long, 1), None);
}

#[test]
fn review_transitions_follow_status() {
    let s = review_step("gen_1", "proposed", ReviewAction::Accept).unwrap();
    assert_eq!((s.status, s.decision, s.check), ("accepted", "accept", HashCheck::Base));
    let s = review_step("gen_1", "accepted", ReviewAction::Undo).unwrap();
    assert_eq!((s.status, s.check), ("reverted", HashCheck::Proposed));
    let s = review_step("gen_1", "rejected", ReviewAction::Retry).unwrap();
    assert_eq!((s.status, s.decision), ("rejected", "retry"));
    assert_eq!(
        review_step("gen_1", "accepted", ReviewAction::Reject).unwrap_err(),
        "run gen_1 status is accepted, expected proposed"
    );
    assert_eq!(
        review_step("gen_1", "reverted", ReviewAction::Retry).unwrap_err(),
        "run gen_1 cannot be retried from status reverted"
    );
    for a in [ReviewAction::Accept, ReviewAction::Reject, ReviewAction::Undo, ReviewAction::Retry] {
        assert!(review_step("g", "reverted", a).is_err());
    }
    let d = decision("pm", "accept", "accepted", vec!["art_1".to_string()], 7);
    assert_eq!((d.actor.as_str(), d.decision.as_str(), d.decided_at), ("pm", "accept", 7));
}

#[test]
fn stale_source_refuses_accept() {
    let base = source_hash("<h1>Before</h1>");
    assert!(check_source_hash("accept", &base, "<h1>Before</h1>").is_ok());
    let err = check_source_hash("accept", &base, "<h1>Someone else</h1>").unwrap_err();
    assert!(err.contains("source hash changed"));
    assert_eq!(
        err,
        format!("accept refused because source hash changed: expected {base}, got {}", source_hash("<h1>Someone else</h1>"))
    );
}

#[test]
fn ids_and_urls_are_sanitized() {
    assert_eq!(safe_path_id("My Clip (1).mov"), "My-Clip--1-.mov");
    assert_eq!(safe_path_id("***"), "video");
    assert_eq!(safe_slug_id("Hello World"), "hello-world");
    assert_eq!(safe_slug_id("--42 Clip"), "video-42-clip");
    assert_eq!(safe_slug_id(&"a".repeat(80)).len(), 64);
    assert_eq!(surface_node_id("art 1/x"), "surf_art_1_x");
    assert_eq!(file_url("/tmp/a b/é.mp4"), "file:///tmp/a%20b/%C3%A9.mp4");
    assert_eq!(strip_tags("<p>Hi <b>there</b></p>"), "Hi there");
    assert_eq!(strip_json_fence("```json\n{\"a\":1}\n```"), "{\"a\":1}");
    assert_eq!(strip_json_fence("  {}  "), "{}");
    assert_eq!(nonempty("  x "), Some("x".to_string()));
    assert_eq!(nonempty("   "), None);
}

#[test]
fn clip_feedback_and_tags() {
    assert_eq!(classify_feedback("这个 不 适合开场"), ("opening_reject".to_string(), "deprioritize_opening".to_string()));
    assert_eq!(classify_feedback("Good Opener!"), ("opening_prefer".to_string(), "prefer_opening".to_string()));
    assert_eq!(classify_feedback("nice"), ("general".to_string(), "cite_context".to_string()));
    assert_eq!(tags_for("Wide Opening", "cam.mp4", 1000, 2), vec!["全景", "开场", "快节奏"]);
    assert_eq!(tags_for("product detail", "camera-b.mp4", 5000, 3), vec!["产品细节", "多机位", "铺垫"]);
    assert_eq!(rhythm_for_duration(2000), "中速说明，适合承接信息和产品证明");
    assert_eq!(use_case_for("Close-up", 2), "产品细节证明");
    assert_eq!(use_case_for("anything", 1), "开场吸引注意");
    assert_eq!(clip_duration(0, 500, 200), 1);
    assert_eq!(clip_duration(100, 0, 300), 300);
    assert_eq!(action_label("reorder"), "重排");
    assert_eq!(action_label("other"), "调整");
    assert_eq!(default_decision_reason("accept"), "PM 接受 proposal diff，允许写回剪辑队列。");
    assert_eq!(normalize_decision("  Accepted "), Ok("accept"));
    assert_eq!(
        normalize_decision("Maybe"),
        Err("unsupported video clip proposal decision: maybe; expected accept or reject".to_string())
    );
}

#[test]
fn missing_product_card() {
    let c = missing_card("web", "网页");
    assert_eq!(c.id, "missing_web");
    assert_eq!(c.status, "missing");
    assert_eq!(c.preview.text.as_deref(), Some("等待项目源文件"));
    assert_eq!(c.next_actions, vec!["register-artifact".to_string()]);
}

#[test]
fn run_ids_come_from_file_stems() {
    assert_eq!(normalize_run_id("gen_abc-1"), Ok("gen_abc-1".to_string()));
    assert_eq!(normalize_run_id(".capy/runs/gen_1.json"), Ok("gen_1".to_string()));
    assert_eq!(normalize_run_id("bad id"), Err("invalid run id: bad id".to_string()));
    assert_eq!(normalize_run_id(""), Err("invalid run id: ".to_string()));
    assert_eq!(normalize_run_id("a/b.c.json"), Err("invalid run id: a/b.c.json".to_string()));
}

#[test]
fn proposal_review_starts_proposed() {
    let p = patch(vec![op("<h1>Before</h1>", "<h1>After</h1>")]);
    let (review, refs) = proposal_review(&p, Some("gen_parent".to_string()), 12).expect("review");
    assert_eq!(review.mode, "review");
    assert_eq!(review.status, "proposed");
    assert_eq!(review.parent_run_id.as_deref(), Some("gen_parent"));
    assert_eq!(review.base_hash, review.diff_summary.old_hash);
    assert_eq!(review.proposed_hash, review.diff_summary.new_hash);
    assert_eq!(review.decisions.len(), 1);
    assert_eq!(review.decisions[0].actor, "system");
    assert_eq!(review.decisions[0].decision, "propose");
    assert_eq!(review.decisions[0].decided_at, 12);
    assert_eq!(refs, review.decisions[0].artifact_refs);
    assert_eq!(refs.len(), 1);
    assert!(proposal_review(&patch(vec![]), None, 0).is_err());
}

fn replace_op(old_text: &str, new_text: &str) -> ReplaceExactTextOperationV1 {
    ReplaceExactTextOperationV1 {
        op: "replace_exact_text".to_string(),
        artifact_id: "art_1".to_string(),
        source_path: None,
        old_text: old_text.to_string(),
        new_text: new_text.to_string(),
        selector_hint: None,
    }
}

#[test]
fn staging_edits_the_staged_text_and_keeps_it_on_refusal() {
    let mut staged: Vec<(String, String)> = Vec::new();
    stage_operation(&mut staged, "/p/a.html", "<h1>One</h1><p>Two</p>", "art_1", &replace_op("One", "Uno")).unwrap();
    assert_eq!(staged, vec![("/p/a.html".to_string(), "<h1>Uno</h1><p>Two</p>".to_string())]);
    // The second operation on the same file edits the staged text, not the disk text.
    stage_operation(&mut staged, "/p/a.html", "ignored", "art_1", &replace_op("Two", "Dos")).unwrap();
    assert_eq!(staged, vec![("/p/a.html".to_string(), "<h1>Uno</h1><p>Dos</p>".to_string())]);
    let before = staged.clone();
    let err = stage_operation(&mut staged, "/p/a.html", "", "art_1", &replace_op("One", "Eins")).unwrap_err();
    assert_eq!(err, "replace_exact_text for artifact art_1 expected one match, found 0");
    assert_eq!(staged, before);
    let err = stage_operation(&mut staged, "/p/b.html", "x", "art_1", &replace_op("", "y")).unwrap_err();
    assert_eq!(err, "replace_exact_text old_text must not be empty");
    assert_eq!(staged, before);
    stage_operation(&mut staged, "/p/b.html", "<b>x</b>", "art_1", &replace_op("x", "y")).unwrap();
    assert_eq!(staged.len(), 2);
    assert_eq!(staged[1], ("/p/b.html".to_string(), "<b>y</b>".to_string()));
}

#[test]
fn validation_report_is_ok_exactly_without_errors() {
    let a = asset("dl_1", "css", Some("tokens"), "tokens.css", "Tokens");
    let m = manifest(vec![a.clone()]);
    let summary = design_language_summary(&m, "dlpkg-fnv1a64-0".to_string());
    let ok = asset_status(&a, AssetProbe::File(23));
    let v = design_language_validation("p1".to_string(), "Demo".to_string(), &m, summary.clone(), vec![ok], 7);
    assert!(v.ok);
    assert!(v.errors.is_empty());
    assert_eq!(v.schema_version, "capy.design-language.validation.v1");
    assert_eq!(v.design_language_ref, summary.design_language_ref);
    assert_eq!(v.generated_at, 7);
    let missing = asset_status(&a, AssetProbe::Missing("No such file".to_string()));
    let v = design_language_validation("p1".to_string(), "Demo".to_string(), &m, summary, vec![missing], 7);
    assert!(!v.ok);
    assert_eq!(v.errors.len(), 1);
    assert!(v.errors[0].contains("tokens.css"));
}

#[test]
fn validation_names_each_bad_asset_and_is_stable() {
    let a = asset("dl_a", "css", Some("tokens"), "a.css", "A");
    let b = asset("dl_b", "md", Some("rules"), "style.md", "B");
    let m = manifest(vec![a.clone(), b.clone()]);
    let contents = vec![Some(b":root{}".to_vec()), None];
    let run = || {
        let statuses = vec![
            asset_status(&a, AssetProbe::NotFile),
            asset_status(&b, AssetProbe::Missing("gone".to_string())),
        ];
        let summary = design_language_summary(&m, design_language_ref(&m, &contents));
        design_language_validation("p1".to_string(), "Demo".to_string(), &m, summary, statuses, 1)
    };
    let first = run();
    let second = run();
    assert!(!first.ok);
    assert_eq!(first.errors.len(), 2);
    assert!(first.errors[0].contains("a.css"));
    assert!(first.errors[1].contains("style.md"));
    assert_eq!(first.ok, second.ok);
    assert_eq!(first.errors, second.errors);
    assert_eq!(first.design_language_ref, second.design_language_ref);
    assert_eq!(first.design_language_ref, design_language_ref(&m, &contents));
}

fn prepared(path: &str, disk_text: &str) -> Result<capy_core::project::patch::PreparedSource, String> {
    Ok(capy_core::project::patch::PreparedSource {
        path: path.to_string(),
        disk_text: disk_text.to_string(),
        artifact_id: "art_1".to_string(),
    })
}

#[test]
fn patch_is_staged_whole_or_refused_at_its_first_error() {
    let ops = vec![replace_op("One", "Uno"), replace_op("Two", "Dos"), replace_op("x", "y")];
    let staged = stage_patch(
        &ops,
        &[prepared("/p/a.html", "<h1>One</h1><p>Two</p>"), prepared("/p/a.html", ""), prepared("/p/b.html", "<b>x</b>")],
    )
    .unwrap();
    assert_eq!(
        staged,
        vec![
            ("/p/a.html".to_string(), "<h1>Uno</h1><p>Dos</p>".to_string()),
            ("/p/b.html".to_string(), "<b>y</b>".to_string())
        ]
    );
    let err = stage_patch(
        &ops,
        &[prepared("/p/a.html", "<h1>One</h1><p>Two</p>"), Err("unknown artifact id: art_9".to_string()), prepared("/p/b.html", "zzz")],
    )
    .unwrap_err();
    assert_eq!(err, "unknown artifact id: art_9");
    let err = stage_patch(
        &ops,
        &[prepared("/p/a.html", "<h1>One</h1><p>Two</p>"), prepared("/p/a.html", ""), prepared("/p/b.html", "zzz")],
    )
    .unwrap_err();
    assert_eq!(err, "replace_exact_text for artifact art_1 expected one match, found 0");
    let bad = vec![replace_op("One", "Uno"), replace_op("", "y")];
    let err = stage_patch(&bad, &[prepared("/p/a.html", "One"), Err("later".to_string())]).unwrap_err();
    assert_eq!(err, "replace_exact_text old_text must not be empty");
}
