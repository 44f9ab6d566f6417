use capy_core::project::model::{ArtifactKind, ArtifactRefV1};
use capy_core::project::video_import::{
    composition_id, find_imported_video, imported_title, probed_frame_size, register_video,
    video_import_paths, video_record, viewport_ratio,
};

fn other(id: &str) -> ArtifactRefV1 {
    ArtifactRefV1 {
        id: id.to_string(),
        kind: ArtifactKind::Html,
        title: "Home".to_string(),
        source_path: "media/sample.mp4".to_string(),
        source_refs: Vec::new(),
        output_refs: Vec::new(),
        design_language_refs: Vec::new(),
        asset_refs: Vec::new(),
        provenance: None,
        evidence_refs: Vec::new(),
        updated_at: 0,
    }
}

#[test]
fn import_paths_and_names() {
    let (poster, composition) = video_import_paths("art_01/x");
    assert_eq!(poster, ".capy/video-previews/art_01-x-first-frame.png");
    assert_eq!(composition, ".capy/video-compositions/art_01-x/compositions/main.json");
    assert_eq!(imported_title(Some("Sample"), "sample.mp4"), "Sample");
    assert_eq!(imported_title(Some("  "), "sample.mp4"), "sample.mp4");
    assert_eq!(imported_title(None, "sample.mp4"), "sample.mp4");
    assert_eq!(composition_id("Art_01"), "project-video-art-01");
    assert_eq!(viewport_ratio(320, 180), "320:180");
}

#[test]
fn probed_sizes_must_be_positive() {
    assert_eq!(probed_frame_size(Some(320), Some(180)), Ok((320, 180)));
    assert_eq!(probed_frame_size(None, Some(180)), Err("ffprobe video width missing".to_string()));
    assert_eq!(probed_frame_size(Some(0), Some(180)), Err("ffprobe video width missing".to_string()));
    assert_eq!(probed_frame_size(Some(320), Some(1 << 40)), Err("ffprobe video height missing".to_string()));
}

#[test]
fn reimport_replaces_the_same_file_record() {
    let mut registry = vec![other("art_html")];
    let first = video_record("art_v", "Sample", "media/sample.mp4", "{\"video_import\":{}}".to_string(), 1);
    assert_eq!(first.kind, ArtifactKind::Video);
    assert_eq!(first.output_refs, vec![".capy/video-compositions/art_v/compositions/main.json".to_string()]);
    register_video(&mut registry, first);
    assert_eq!(registry.len(), 2);
    assert_eq!(find_imported_video(&registry, "media/sample.mp4"), Some(1));
    let again = video_record("art_v", "Sample 2", "media/sample.mp4", "{}".to_string(), 2);
    register_video(&mut registry, again);
    assert_eq!(registry.len(), 2);
    assert_eq!(registry[1].title, "Sample 2");
    assert_eq!(registry[1].updated_at, 2);
    assert_eq!(registry[0].id, "art_html");
}
