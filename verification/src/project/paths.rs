//! Keeping project paths inside the project: where a requested path points
//! before it is resolved, and its project-relative form once the file
//! system has resolved it.

use vstd::prelude::*;
use crate::mp4::verdict::lit;
use crate::project::ids::copy_span;
use crate::project::proposal::same_text;
use crate::project::order::seq_lt;
use crate::project::stable::{stable_order, stable_sort, take_in_order, SortKey};
use crate::text::{chars_of, chars_eq, string_from_chars};

verus! {

/// The path a request names, before resolution: an absolute path as it is,
/// a relative one joined onto the project root.
pub open spec fn spec_candidate_path(root: Seq<char>, requested: Seq<char>) -> Seq<char> {
    if requested.len() > 0 && requested[0] == '/' {
        requested
    } else if root.len() > 0 && root[root.len() - 1] == '/' {
        root + requested
    } else {
        root + "/"@ + requested
    }
}

/// Joins a requested path onto the project root (absolute paths stay as
/// they are).
pub fn candidate_path(root: &str, requested: &str) -> (s: String)
    ensures
        s@ == spec_candidate_path(root@, requested@),
{
    let rq = chars_of(requested);
    if rq.len() > 0 && rq[0] == '/' {
        return lit(requested);
    }
    let rt = chars_of(root);
    let mut s = lit(root);
    if !(rt.len() > 0 && rt[rt.len() - 1] == '/') {
        s.append("/");
    }
    s.append(requested);
    s
}

/// The part of the resolved path `resolved` below the resolved project
/// root `root`, or `None` when it lies outside. Both are canonical absolute
/// paths: no trailing separator but on the file-system root itself, no
/// empty or dot components; so lying below the root means continuing it
/// past a separator.
pub open spec fn spec_project_relative(resolved: Seq<char>, root: Seq<char>) -> Option<Seq<char>> {
    if resolved == root {
        Some(Seq::empty())
    } else if root == seq!['/'] {
        if resolved.len() > 0 && resolved[0] == '/' {
            Some(resolved.skip(1))
        } else {
            None
        }
    } else if resolved.len() > root.len() && resolved.take(root.len() as int) == root
        && resolved[root.len() as int] == '/' {
        Some(resolved.skip(root.len() as int + 1))
    } else {
        None
    }
}

/// The project-relative form of a resolved path, or `None` for a path
/// outside the project root. What comes back, put after the root and a
/// separator, is the resolved path again.
pub fn project_relative(resolved: &str, root: &str) -> (r: Option<String>)
    ensures
        opt_chars(r) == spec_project_relative(resolved@, root@),
        r matches Some(rel) ==> {
            ||| rel@.len() == 0 && resolved@ == root@
            ||| root@ == seq!['/'] && resolved@ == seq!['/'] + rel@
            ||| root@ != seq!['/'] && resolved@ == root@ + "/"@ + rel@
        },
{
    let rs = chars_of(resolved);
    let ro = chars_of(root);
    if chars_eq(rs.as_slice(), ro.as_slice()) {
        return Some(String::new());
    }
    if ro.len() == 1 && ro[0] == '/' {
        assert(ro@ =~= seq!['/']);
        if rs.len() > 0 && rs[0] == '/' {
            let rest = copy_span(rs.as_slice(), 1, rs.len());
            assert(rs@ =~= seq!['/'] + rest@);
            return Some(string_from_chars(rest.as_slice()));
        }
        return None;
    }
    if rs.len() > ro.len() && rs[ro.len()] == '/' {
        let head = copy_span(rs.as_slice(), 0, ro.len());
        if chars_eq(head.as_slice(), ro.as_slice()) {
            let rest = copy_span(rs.as_slice(), ro.len() + 1, rs.len());
            proof {
                assert(rs@.take(ro.len() as int) =~= head@);
                assert(root@ + "/"@ + rest@ =~= resolved@) by {
                    reveal_strlit("/");
                    assert(rs@ =~= rs@.take(ro.len() as int) + seq!['/'] + rs@.skip(ro.len() as int + 1));
                }
            }
            return Some(string_from_chars(rest.as_slice()));
        }
        proof {
            assert(rs@.take(ro.len() as int) =~= head@);
        }
    }
    None
}

pub open spec fn opt_chars(o: Option<String>) -> Option<Seq<char>> {
    match o {
        Some(s) => Some(s@),
        None => None,
    }
}

/// The refusal of a path outside the project: `path must live inside
/// project root: <resolved>`.
pub fn outside_root_message(resolved: &str) -> (s: String)
    ensures
        s@ == "path must live inside project root: "@ + resolved@,
{
    let mut s = lit("path must live inside project root: ");
    s.append(resolved);
    s
}

/// The refusal of a clip-queue path outside the project: `video clip queue
/// <field> must live inside project root: <resolved>`.
pub fn queue_path_outside_message(field: &str, resolved: &str) -> (s: String)
    ensures
        s@ == "video clip queue "@ + field@ + " must live inside project root: "@ + resolved@,
{
    let mut s = lit("video clip queue ");
    s.append(field);
    s.append(" must live inside project root: ");
    s.append(resolved);
    s
}

/// A patch may name the file it edits only as the artifact's own source:
/// `normalized` is the project-relative form of the path it names, and the
/// artifact is `artifact_id` with source `source_path`.
pub fn check_requested_source(normalized: &str, artifact_id: &str, source_path: &str) -> (r: Result<(), String>)
    ensures
        normalized@ == source_path@ <==> r is Ok,
        r matches Err(m) ==> m@ == "patch source_path "@ + normalized@ + " does not match artifact "@
            + artifact_id@ + " source_path "@ + source_path@,
{
    if same_text(normalized, source_path) {
        return Ok(());
    }
    let mut m = lit("patch source_path ");
    m.append(normalized);
    m.append(" does not match artifact ");
    m.append(artifact_id);
    m.append(" source_path ");
    m.append(source_path);
    Err(m)
}

/// The files a patch changed, project-relative and in ascending order; an
/// error for the first one outside the project root.
pub fn relative_changed_files(root: &str, paths: &[String]) -> (r: Result<Vec<String>, String>)
    ensures
        match r {
            Ok(v) => {
                &&& forall|i: int| 0 <= i < paths.len() ==> spec_project_relative(#[trigger] paths@[i]@, root@) is Some
                &&& exists|rels: Seq<String>| {
                    &&& rels.len() == paths.len()
                    &&& forall|i: int| 0 <= i < paths.len() ==> spec_project_relative(#[trigger] paths@[i]@, root@) == Some(rels[i]@)
                    &&& v@ == take_in_order(rels, stable_order(rels, rels.len()))
                }
                &&& forall|k: int, l: int| 0 <= k < l < v.len() ==> !seq_lt(#[trigger] v@[l]@, #[trigger] v@[k]@)
            },
            Err(m) => exists|i: int| {
                &&& 0 <= i < paths.len()
                &&& spec_project_relative(paths@[i]@, root@) is None
                &&& forall|j: int| 0 <= j < i ==> spec_project_relative(#[trigger] paths@[j]@, root@) is Some
                &&& m@ == "changed file "@ + paths@[i]@ + " is not under project root: prefix not found"@
            },
        },
{
    let mut rels: Vec<String> = Vec::new();
    let mut i: usize = 0;
    while i < paths.len()
        invariant
            i <= paths.len(),
            rels.len() == i,
            forall|j: int| 0 <= j < i ==> spec_project_relative(#[trigger] paths@[j]@, root@) == Some(rels@[j]@),
        decreases paths.len() - i,
    {
        match project_relative(paths[i].as_str(), root) {
            Some(rel) => {
                rels.push(rel);
            },
            None => {
                let mut m = lit("changed file ");
                m.append(paths[i].as_str());
                m.append(" is not under project root: prefix not found");
                proof {
                    assert(forall|j: int| 0 <= j < i ==> spec_project_relative(#[trigger] paths@[j]@, root@) is Some);
                }
                return Err(m);
            },
        }
        i = i + 1;
    }
    let ghost before = rels@;
    let v = stable_sort(rels);
    proof {
        assert forall|k: int, l: int| 0 <= k < l < v.len() implies !seq_lt(#[trigger] v@[l]@, #[trigger] v@[k]@) by {
            assert(!v@[l].precedes(&v@[k]));
        }
        assert(forall|j: int| 0 <= j < paths.len() ==> spec_project_relative(#[trigger] paths@[j]@, root@) is Some);
    }
    Ok(v)
}

} // verus!
