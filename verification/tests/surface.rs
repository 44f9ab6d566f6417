use capy_core::project::ids::surface_node_id;
use capy_core::project::model::{ArtifactKind, ArtifactRefV1};
use capy_core::project::surface::{check_surface_schema, default_geometry, find_surface_node, plan_surface_nodes};

fn artifact(id: &str, kind: ArtifactKind) -> ArtifactRefV1 {
    ArtifactRefV1 {
        id: id.to_string(),
        kind,
        title: id.to_string(),
        source_path: format!("{id}.src"),
        source_refs: Vec::new(),
        output_refs: Vec::new(),
        design_language_refs: Vec::new(),
        asset_refs: Vec::new(),
        provenance: None,
        evidence_refs: Vec::new(),
        updated_at: 0,
    }
}

#[test]
fn one_node_per_new_artifact() {
    let artifacts = vec![artifact("art_landing", ArtifactKind::Html)];
    let nodes = plan_surface_nodes(&[], &artifacts, 7);
    assert_eq!(nodes.len(), 1);
    assert_eq!(nodes[0].id, surface_node_id("art_landing"));
    assert_eq!(nodes[0].artifact_id, "art_landing");
    assert_eq!((nodes[0].x, nodes[0].y, nodes[0].w, nodes[0].h), (96, 360, 420, 260));
    assert_eq!(nodes[0].surface, "canvas");
    assert_eq!(nodes[0].status, "ready");
    assert_eq!(nodes[0].updated_at, 7);
}

#[test]
fn known_and_repeated_artifacts_get_no_new_node() {
    let artifacts = vec![
        artifact("a", ArtifactKind::Html),
        artifact("b", ArtifactKind::Image),
        artifact("c", ArtifactKind::Video),
        artifact("b", ArtifactKind::Image),
        artifact("d.e", ArtifactKind::Markdown),
    ];
    let nodes = plan_surface_nodes(&["a".to_string()], &artifacts, 1);
    let ids: Vec<&str> = nodes.iter().map(|n| n.id.as_str()).collect();
    assert_eq!(ids, vec!["surf_b", "surf_c", "surf_d_e"]);
    assert_eq!((nodes[0].x, nodes[0].y, nodes[0].w, nodes[0].h), (476, 360, 320, 220));
    assert_eq!((nodes[1].x, nodes[1].y, nodes[1].w, nodes[1].h), (856, 360, 360, 220));
    assert_eq!((nodes[2].x, nodes[2].y, nodes[2].w, nodes[2].h), (476, 610, 320, 180));
    assert_eq!(default_geometry(6, &ArtifactKind::PptJson), (96, 860, 360, 220));
}

#[test]
fn surface_schema_and_lookup() {
    assert_eq!(check_surface_schema("capy.surface-nodes.v1"), Ok(()));
    assert_eq!(
        check_surface_schema("v0"),
        Err("unsupported surface nodes schema: v0".to_string())
    );
    let ids = vec!["surf_a".to_string(), "surf_b".to_string()];
    assert_eq!(find_surface_node(&ids, "surf_b"), Ok(1));
    assert_eq!(
        find_surface_node(&ids, "surf_z"),
        Err("unknown surface node id: surf_z".to_string())
    );
}

#[test]
fn default_geometry_places_any_index() {
    let (x, y, w, h) = default_geometry(usize::MAX, &ArtifactKind::Video);
    assert_eq!(x, 96 + (usize::MAX % 3) as u64 * 380);
    assert_eq!(y, 360 + (usize::MAX / 3) as u128 * 250);
    assert_eq!((w, h), (360, 220));
}
