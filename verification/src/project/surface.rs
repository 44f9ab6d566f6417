//! Canvas surface nodes: every artifact gets one node, laid out on a grid
//! of three columns in registry order.

use vstd::prelude::*;
use crate::mp4::verdict::lit;
use crate::project::ids::{node_id_char, surface_node_id};
use crate::project::model::{ArtifactKind, ArtifactRefV1};
use crate::text::texts;
use crate::project::proposal::same_text;
use crate::project::queue::copy_text;

verus! {

/// A node the canvas gains for an artifact that has none, with its default
/// place and size (whole canvas units).
pub struct PlannedSurfaceNode {
    pub id: String,
    pub surface: String,
    pub artifact_id: String,
    pub x: u64,
    pub y: u128,
    pub w: u64,
    pub h: u64,
    pub status: String,
    pub updated_at: u64,
}

/// The default size of a node for an artifact kind.
pub open spec fn spec_default_size(kind: ArtifactKind) -> (u64, u64) {
    match kind {
        ArtifactKind::Html => (420, 260),
        ArtifactKind::Image => (320, 220),
        ArtifactKind::PosterJson | ArtifactKind::PptJson | ArtifactKind::CompositionJson => (360, 220),
        ArtifactKind::Video => (360, 220),
        _ => (320, 180),
    }
}

/// The default geometry of the node of the `index`-th artifact: three
/// columns 380 apart from x = 96, rows 250 apart from y = 360.
pub open spec fn spec_default_geometry(index: nat, kind: ArtifactKind) -> (int, int, u64, u64) {
    ((96 + (index % 3) * 380) as int, (360 + (index / 3) * 250) as int, spec_default_size(kind).0, spec_default_size(kind).1)
}

/// The default geometry of the node of the `index`-th artifact: x, y,
/// width, height.
pub fn default_geometry(index: usize, kind: &ArtifactKind) -> (g: (u64, u128, u64, u64))
    ensures
        g.0 as int == spec_default_geometry(index as nat, *kind).0,
        g.1 as int == spec_default_geometry(index as nat, *kind).1,
        g.2 == spec_default_geometry(index as nat, *kind).2,
        g.3 == spec_default_geometry(index as nat, *kind).3,
{
    let column = (index % 3) as u64;
    let row = (index / 3) as u128;
    let (w, h) = match kind {
        ArtifactKind::Html => (420u64, 260u64),
        ArtifactKind::Image => (320u64, 220u64),
        ArtifactKind::PosterJson | ArtifactKind::PptJson | ArtifactKind::CompositionJson => (360u64, 220u64),
        ArtifactKind::Video => (360u64, 220u64),
        _ => (320u64, 180u64),
    };
    (96 + column * 380, 360 + row * 250, w, h)
}

/// Artifact `i` needs a new node: no node has its id, and no earlier
/// artifact has it either.
pub open spec fn needs_node(known: Seq<Seq<char>>, v: Seq<ArtifactRefV1>, i: int) -> bool {
    &&& !known.contains(v[i].id@)
    &&& forall|j: int| 0 <= j < i ==> (#[trigger] v[j]).id@ != v[i].id@
}

/// The positions of the first `n` artifacts that need a new node.
pub open spec fn new_node_positions(known: Seq<Seq<char>>, v: Seq<ArtifactRefV1>, n: int) -> Seq<int>
    decreases n,
{
    if n <= 0 {
        seq![]
    } else if needs_node(known, v, n - 1) {
        new_node_positions(known, v, n - 1).push(n - 1)
    } else {
        new_node_positions(known, v, n - 1)
    }
}

/// `p` is the node planned for the `i`-th artifact `a`.
pub open spec fn is_planned_node(p: PlannedSurfaceNode, a: ArtifactRefV1, i: int, updated_at: u64) -> bool {
    let g = spec_default_geometry(i as nat, a.kind);
    &&& p.id@ == "surf_"@ + a.id@.map_values(|c: char| node_id_char(c))
    &&& p.surface@ == "canvas"@
    &&& p.artifact_id@ == a.id@
    &&& p.x as int == g.0
    &&& p.y as int == g.1
    &&& p.w == g.2
    &&& p.h == g.3
    &&& p.status@ == "ready"@
    &&& p.updated_at == updated_at
}

fn known_or_seen(known: &[String], artifacts: &[ArtifactRefV1], i: usize) -> (r: bool)
    requires
        i < artifacts.len(),
    ensures
        r == !needs_node(texts(known@), artifacts@, i as int),
{
    let id = artifacts[i].id.as_str();
    let mut k: usize = 0;
    while k < known.len()
        invariant
            k <= known.len(),
            i < artifacts.len(),
            id@ == artifacts@[i as int].id@,
            forall|m: int| 0 <= m < k ==> texts(known@)[m] != id@,
        decreases known.len() - k,
    {
        if same_text(known[k].as_str(), id) {
            proof {
                assert(texts(known@)[k as int] == id@);
            }
            return true;
        }
        k = k + 1;
    }
    let mut j: usize = 0;
    while j < i
        invariant
            j <= i,
            i < artifacts.len(),
            id@ == artifacts@[i as int].id@,
            !texts(known@).contains(id@),
            forall|m: int| 0 <= m < j ==> (#[trigger] artifacts@[m]).id@ != id@,
        decreases i - j,
    {
        if same_text(artifacts[j].id.as_str(), id) {
            return true;
        }
        j = j + 1;
    }
    false
}

/// The nodes the canvas gains: one for each artifact (in registry order)
/// whose id has no node yet, placed by its position in the registry.
/// `known` are the artifact ids that already have nodes.
pub fn plan_surface_nodes(known: &[String], artifacts: &[ArtifactRefV1], updated_at: u64) -> (r: Vec<PlannedSurfaceNode>)
    ensures
        ({
            let pos = new_node_positions(texts(known@), artifacts@, artifacts@.len() as int);
            &&& r.len() == pos.len()
            &&& forall|m: int| 0 <= m < pos.len() ==> is_planned_node(#[trigger] r@[m], artifacts@[pos[m]], pos[m], updated_at)
        }),
{
    let mut r: Vec<PlannedSurfaceNode> = Vec::new();
    let mut i: usize = 0;
    while i < artifacts.len()
        invariant
            i <= artifacts.len(),
            r.len() == new_node_positions(texts(known@), artifacts@, i as int).len(),
            forall|m: int|
                0 <= m < r.len() ==> is_planned_node(
                    #[trigger] r@[m],
                    artifacts@[new_node_positions(texts(known@), artifacts@, i as int)[m]],
                    new_node_positions(texts(known@), artifacts@, i as int)[m],
                    updated_at,
                ),
        decreases artifacts.len() - i,
    {
        if !known_or_seen(known, artifacts, i) {
            let a = &artifacts[i];
            let (x, y, w, h) = default_geometry(i, &a.kind);
            let node = PlannedSurfaceNode {
                id: surface_node_id(a.id.as_str()),
                surface: lit("canvas"),
                artifact_id: copy_text(&a.id),
                x,
                y,
                w,
                h,
                status: lit("ready"),
                updated_at,
            };
            let ghost prev = r@;
            r.push(node);
            proof {
                assert forall|m: int| 0 <= m < r.len() implies is_planned_node(
                    #[trigger] r@[m],
                    artifacts@[new_node_positions(texts(known@), artifacts@, i + 1)[m]],
                    new_node_positions(texts(known@), artifacts@, i + 1)[m],
                    updated_at,
                ) by {
                    if m < prev.len() {
                        assert(r@[m] == prev[m]);
                    }
                }
            }
        }
        i = i + 1;
    }
    r
}

/// The surface node file must have the schema this tool writes.
pub fn check_surface_schema(schema_version: &str) -> (r: Result<(), String>)
    ensures
        schema_version@ == "capy.surface-nodes.v1"@ ==> r is Ok,
        schema_version@ != "capy.surface-nodes.v1"@ ==> (r matches Err(m) && m@ == "unsupported surface nodes schema: "@
            + schema_version@),
{
    if same_text(schema_version, "capy.surface-nodes.v1") {
        Ok(())
    } else {
        let mut m = lit("unsupported surface nodes schema: ");
        m.append(schema_version);
        Err(m)
    }
}

/// The position of the node with id `node_id`, or the error that names it.
pub fn find_surface_node(node_ids: &[String], node_id: &str) -> (r: Result<usize, String>)
    ensures
        match r {
            Ok(i) => i < node_ids.len() && node_ids@[i as int]@ == node_id@ && forall|k: int|
                0 <= k < i ==> (#[trigger] node_ids@[k])@ != node_id@,
            Err(m) => m@ == "unknown surface node id: "@ + node_id@ && forall|k: int|
                0 <= k < node_ids.len() ==> (#[trigger] node_ids@[k])@ != node_id@,
        },
{
    let mut i: usize = 0;
    while i < node_ids.len()
        invariant
            i <= node_ids.len(),
            forall|k: int| 0 <= k < i ==> (#[trigger] node_ids@[k])@ != node_id@,
        decreases node_ids.len() - i,
    {
        if same_text(node_ids[i].as_str(), node_id) {
            return Ok(i);
        }
        i = i + 1;
    }
    let mut m = lit("unknown surface node id: ");
    m.append(node_id);
    Err(m)
}

} // verus!
