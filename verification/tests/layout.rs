use capy_core::project::layout::{run_record_path, ProjectPackage};

#[test]
fn records_live_under_capy_dir() {
    let p = ProjectPackage::at("/work/demo");
    assert_eq!(p.root(), "/work/demo");
    assert_eq!(p.project_manifest_path(), "/work/demo/.capy/project.json");
    assert_eq!(p.artifacts_path(), "/work/demo/.capy/artifacts.json");
    assert_eq!(p.design_language_path(), "/work/demo/.capy/design-language.json");
    assert_eq!(p.runs_dir(), "/work/demo/.capy/runs");
    assert_eq!(p.evidence_dir(), "/work/demo/.capy/evidence");
    assert_eq!(p.video_clip_queue_path(), "/work/demo/.capy/video-clip-queue.json");
    assert_eq!(p.video_clip_proposal_path(), "/work/demo/.capy/video-clip-proposal.json");
    assert_eq!(p.video_clip_proposal_history_path(), "/work/demo/.capy/video-clip-proposal-history.json");
    assert_eq!(p.video_clip_feedback_path(), "/work/demo/.capy/video-clip-feedback.json");
    assert_eq!(p.video_clip_semantics_path(), "/work/demo/.capy/video-clip-semantics.json");
    assert_eq!(ProjectPackage::at("/").artifacts_path(), "/.capy/artifacts.json");
    assert_eq!(run_record_path("gen_1"), ".capy/runs/gen_1.json");
}
