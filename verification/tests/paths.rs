use capy_core::project::paths::{
    candidate_path, check_requested_source, outside_root_message, project_relative,
    queue_path_outside_message, relative_changed_files,
};

#[test]
fn relative_requests_join_the_root() {
    assert_eq!(candidate_path("/work/proj", "media/a.mp4"), "/work/proj/media/a.mp4");
    assert_eq!(candidate_path("/", "a.mp4"), "/a.mp4");
    assert_eq!(candidate_path("/work/proj", "/elsewhere/a.mp4"), "/elsewhere/a.mp4");
}

#[test]
fn only_paths_below_the_root_are_project_relative() {
    assert_eq!(project_relative("/work/proj/media/a.mp4", "/work/proj").as_deref(), Some("media/a.mp4"));
    assert_eq!(project_relative("/work/proj", "/work/proj").as_deref(), Some(""));
    assert_eq!(project_relative("/work/project2/a.mp4", "/work/proj"), None);
    assert_eq!(project_relative("/etc/passwd", "/work/proj"), None);
    assert_eq!(project_relative("/etc/passwd", "/").as_deref(), Some("etc/passwd"));
    assert_eq!(outside_root_message("/etc/passwd"), "path must live inside project root: /etc/passwd");
    assert_eq!(
        queue_path_outside_message("composition_path", "/tmp/x.json"),
        "video clip queue composition_path must live inside project root: /tmp/x.json"
    );
}

#[test]
fn patch_must_name_the_artifact_source() {
    assert!(check_requested_source("web/index.html", "art_1", "web/index.html").is_ok());
    assert_eq!(
        check_requested_source("web/other.html", "art_1", "web/index.html").unwrap_err(),
        "patch source_path web/other.html does not match artifact art_1 source_path web/index.html"
    );
}

#[test]
fn changed_files_are_relative_and_sorted() {
    let paths = vec![
        "/work/proj/web/index.html".to_string(),
        "/work/proj/.capy/runs/run_1.json".to_string(),
        "/work/proj/assets/a.css".to_string(),
    ];
    assert_eq!(
        relative_changed_files("/work/proj", &paths).unwrap(),
        vec![".capy/runs/run_1.json".to_string(), "assets/a.css".to_string(), "web/index.html".to_string()]
    );
    let outside = vec!["/work/proj/a".to_string(), "/tmp/b".to_string()];
    assert_eq!(
        relative_changed_files("/work/proj", &outside).unwrap_err(),
        "changed file /tmp/b is not under project root: prefix not found"
    );
}
