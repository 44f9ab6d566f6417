//! Exact-text patches: their checks, the in-memory staging of edited
//! sources, and the reverse patch that undoes a review.

use vstd::prelude::*;
use crate::mp4::verdict::lit;
use crate::render_source::eq_lit;
use crate::project::proposal::same_text;
use crate::text::{
    chars_of, decimal, decimal_chars, find, find_chars_from, find_from, lemma_find_from_spec,
    occurs_at, string_from_chars,
};

verus! {

/// One `replace_exact_text` operation.
#[derive(Debug, Clone)]
pub struct ReplaceExactTextOperationV1 {
    pub op: String,
    pub artifact_id: String,
    pub source_path: Option<String>,
    pub old_text: String,
    pub new_text: String,
    pub selector_hint: Option<String>,
}

/// A patch document (`capy.patch.v1`).
#[derive(Debug, Clone)]
pub struct PatchDocumentV1 {
    pub schema_version: String,
    pub project_id: Option<String>,
    pub input_context_ref: Option<String>,
    pub actor: Option<String>,
    pub operations: Vec<ReplaceExactTextOperationV1>,
}

/// The run record of an applied (or dry-run) patch.
#[derive(Debug, Clone)]
pub struct PatchRunV1 {
    pub schema_version: String,
    pub id: String,
    pub project_id: String,
    pub actor: String,
    pub input_context_ref: Option<String>,
    pub patch_refs: Vec<String>,
    pub changed_artifact_refs: Vec<String>,
    pub status: String,
    pub trace_id: String,
    pub error: Option<String>,
    pub evidence_refs: Vec<String>,
    pub dry_run: bool,
    pub generated_at: u64,
}

/// What applying a patch produced.
#[derive(Debug, Clone)]
pub struct PatchApplyResultV1 {
    pub run: PatchRunV1,
    pub run_path: String,
    pub changed_files: Vec<String>,
}

// ───────────────────────── matching ─────────────────────────

/// Number of non-overlapping occurrences of `needle` in `hay` at or after
/// `from`, found left to right (`str::match_indices`); none for an empty
/// needle.
pub open spec fn count_from(hay: Seq<char>, needle: Seq<char>, from: int) -> nat
    decreases hay.len() - from,
{
    if needle.len() == 0 || from < 0 {
        0
    } else {
        match find_from(hay, needle, from) {
            Some(k) => if from <= k && k + needle.len() <= hay.len() {
                1 + count_from(hay, needle, k + needle.len())
            } else {
                0
            },
            None => 0,
        }
    }
}

proof fn lemma_count_from_bound(hay: Seq<char>, needle: Seq<char>, from: int)
    requires
        0 <= from <= hay.len(),
    ensures
        count_from(hay, needle, from) <= hay.len() - from,
    decreases hay.len() - from,
{
    if needle.len() > 0 {
        match find_from(hay, needle, from) {
            Some(k) => if from <= k && k + needle.len() <= hay.len() {
                lemma_count_from_bound(hay, needle, k + needle.len());
            },
            None => {},
        }
    }
}

/// Number of non-overlapping occurrences of `needle` in `contents`; zero
/// for an empty needle.
pub fn count_matches(contents: &str, needle: &str) -> (n: usize)
    ensures
        n == count_from(contents@, needle@, 0),
{
    let hay = chars_of(contents);
    let nd = chars_of(needle);
    if nd.len() == 0 {
        return 0;
    }
    let mut count: usize = 0;
    let mut pos: usize = 0;
    let hn: usize = hay.len();
    proof {
        lemma_count_from_bound(hay@, nd@, 0);
    }
    loop
        invariant_except_break
            nd@.len() > 0,
            hn == hay@.len(),
            pos <= hay@.len(),
            count + count_from(hay@, nd@, pos as int) == count_from(hay@, nd@, 0),
            count_from(hay@, nd@, pos as int) <= hay@.len() - pos,
            count <= pos,
        ensures
            count == count_from(hay@, nd@, 0),
        decreases hay@.len() - pos,
    {
        match find_chars_from(hay.as_slice(), nd.as_slice(), pos) {
            None => {
                break;
            },
            Some(k) => {
                proof {
                    lemma_count_from_bound(hay@, nd@, k + nd@.len());
                }
                count = count + 1;
                pos = k + nd.len();
            },
        }
    }
    count
}

/// `s` with the first occurrence of `old` replaced by `new`.
pub open spec fn replace_first(s: Seq<char>, old: Seq<char>, new: Seq<char>) -> Seq<char> {
    match find(s, old) {
        Some(k) => s.subrange(0, k) + new + s.subrange(k + old.len(), s.len() as int),
        None => s,
    }
}

/// The edit of one operation on the text `s` of artifact `id`: the text
/// with `old` replaced, which must occur exactly once.
pub open spec fn spec_replace_unique(id: Seq<char>, s: Seq<char>, old: Seq<char>, new: Seq<char>) -> Result<
    Seq<char>,
    Seq<char>,
> {
    let n = count_from(s, old, 0);
    if n != 1 {
        Err(
            "replace_exact_text for artifact "@ + id + " expected one match, found "@ + decimal(
                n as nat,
            ),
        )
    } else {
        Ok(replace_first(s, old, new))
    }
}

pub open spec fn text_result(r: Result<String, String>) -> Result<Seq<char>, Seq<char>> {
    match r {
        Ok(s) => Ok(s@),
        Err(e) => Err(e@),
    }
}

/// Replaces the single occurrence of `old_text` in `current`, the source of
/// artifact `artifact_id`.
pub fn replace_unique(artifact_id: &str, current: &str, old_text: &str, new_text: &str) -> (r: Result<
    String,
    String,
>)
    ensures
        text_result(r) == spec_replace_unique(artifact_id@, current@, old_text@, new_text@),
{
    let n = count_matches(current, old_text);
    if n != 1 {
        let mut m = lit("replace_exact_text for artifact ");
        m.append(artifact_id);
        m.append(" expected one match, found ");
        let d = decimal_chars(n as u64);
        let ds = string_from_chars(d.as_slice());
        m.append(ds.as_str());
        return Err(m);
    }
    let s = chars_of(current);
    let old = chars_of(old_text);
    let new = chars_of(new_text);
    let sn: usize = s.len();
    let k = match find_chars_from(s.as_slice(), old.as_slice(), 0) {
        Some(k) => k,
        None => {
            return Ok(lit(current));
        },
    };
    let mut out: Vec<char> = Vec::new();
    let mut i: usize = 0;
    while i < k
        invariant
            i <= k,
            k <= s@.len(),
            out@ == s@.subrange(0, i as int),
        decreases k - i,
    {
        out.push(s[i]);
        proof {
            assert(s@.subrange(0, i + 1) =~= s@.subrange(0, i as int).push(s@[i as int]));
        }
        i = i + 1;
    }
    let mut j: usize = 0;
    while j < new.len()
        invariant
            j <= new@.len(),
            k <= s@.len(),
            out@ == s@.subrange(0, k as int) + new@.subrange(0, j as int),
        decreases new.len() - j,
    {
        out.push(new[j]);
        proof {
            assert(new@.subrange(0, j + 1) =~= new@.subrange(0, j as int).push(new@[j as int]));
            assert(s@.subrange(0, k as int) + new@.subrange(0, j + 1) =~= (s@.subrange(0, k as int)
                + new@.subrange(0, j as int)).push(new@[j as int]));
        }
        j = j + 1;
    }
    let start = k + old.len();
    let mut t: usize = start;
    proof {
        assert(new@.subrange(0, new@.len() as int) =~= new@);
    }
    while t < s.len()
        invariant
            start <= t <= s@.len(),
            k <= s@.len(),
            out@ == s@.subrange(0, k as int) + new@ + s@.subrange(start as int, t as int),
        decreases s.len() - t,
    {
        out.push(s[t]);
        proof {
            assert(s@.subrange(start as int, t + 1) =~= s@.subrange(start as int, t as int).push(
                s@[t as int],
            ));
            assert(s@.subrange(0, k as int) + new@ + s@.subrange(start as int, t + 1) =~= (s@.subrange(
                0,
                k as int,
            ) + new@ + s@.subrange(start as int, t as int)).push(s@[t as int]));
        }
        t = t + 1;
    }
    Ok(string_from_chars(out.as_slice()))
}

// ───────────────────────── checks ─────────────────────────

/// The problem of a patch document before any operation is looked at: its
/// schema, an empty operation list, or a project id other than `project_id`.
pub open spec fn spec_header_issue(p: PatchDocumentV1, project_id: Seq<char>) -> Option<Seq<char>> {
    if p.schema_version@ != "capy.patch.v1"@ {
        Some("unsupported patch schema_version: "@ + p.schema_version@)
    } else if p.operations@.len() == 0 {
        Some("patch operations must not be empty"@)
    } else if p.project_id matches Some(pid) && pid@ != project_id {
        Some("patch project_id "@ + p.project_id->0@ + " does not match "@ + project_id)
    } else {
        None
    }
}

/// Checks a patch document against the project it is applied to.
pub fn check_patch_header(patch: &PatchDocumentV1, project_id: &str) -> (r: Result<(), String>)
    ensures
        match spec_header_issue(*patch, project_id@) {
            Some(m) => r matches Err(e) && e@ == m,
            None => r is Ok,
        },
{
    let sv = chars_of(patch.schema_version.as_str());
    if !eq_lit(sv.as_slice(), "capy.patch.v1") {
        let mut m = lit("unsupported patch schema_version: ");
        m.append(patch.schema_version.as_str());
        return Err(m);
    }
    if patch.operations.len() == 0 {
        return Err(lit("patch operations must not be empty"));
    }
    if let Some(pid) = &patch.project_id {
        let pc = chars_of(pid.as_str());
        if !eq_lit(pc.as_slice(), project_id) {
            let mut m = lit("patch project_id ");
            m.append(pid.as_str());
            m.append(" does not match ");
            m.append(project_id);
            return Err(m);
        }
    }
    Ok(())
}

/// The problem of one operation before its source is read: an op other than
/// `replace_exact_text`, or an empty `old_text`.
pub open spec fn spec_operation_issue(op: ReplaceExactTextOperationV1) -> Option<Seq<char>> {
    if op.op@ != "replace_exact_text"@ {
        Some("unsupported patch op: "@ + op.op@)
    } else if op.old_text@.len() == 0 {
        Some("replace_exact_text old_text must not be empty"@)
    } else {
        None
    }
}

/// Checks one operation of a patch.
pub fn check_operation(op: &ReplaceExactTextOperationV1) -> (r: Result<(), String>)
    ensures
        match spec_operation_issue(*op) {
            Some(m) => r matches Err(e) && e@ == m,
            None => r is Ok,
        },
{
    let oc = chars_of(op.op.as_str());
    if !eq_lit(oc.as_slice(), "replace_exact_text") {
        let mut m = lit("unsupported patch op: ");
        m.append(op.op.as_str());
        return Err(m);
    }
    let old = chars_of(op.old_text.as_str());
    if old.len() == 0 {
        return Err(lit("replace_exact_text old_text must not be empty"));
    }
    Ok(())
}

// ───────────────────────── undo ─────────────────────────

/// Undoing an applied edit gives the original text back: when `old` occurred
/// once in `s` and `new` occurs at most once in the edited text, replacing
/// `new` by `old` there is accepted and restores `s`.
pub proof fn lemma_undo_restores(id: Seq<char>, s: Seq<char>, old: Seq<char>, new: Seq<char>, t: Seq<char>)
    requires
        old.len() > 0,
        new.len() > 0,
        spec_replace_unique(id, s, old, new) == Ok::<Seq<char>, Seq<char>>(t),
        forall|i: int, j: int| occurs_at(t, new, i) && occurs_at(t, new, j) ==> i == j,
    ensures
        spec_replace_unique(id, t, new, old) == Ok::<Seq<char>, Seq<char>>(s),
{
    lemma_find_from_spec(s, old, 0);
    let k = find(s, old)->0;
    assert(t =~= s.subrange(0, k) + new + s.subrange(k + old.len(), s.len() as int));
    assert(t.subrange(k, k + new.len()) =~= new);
    assert(occurs_at(t, new, k));
    lemma_find_from_spec(t, new, 0);
    assert(find(t, new) == Some(k));
    lemma_find_from_spec(t, new, k + new.len());
    assert(find_from(t, new, k + new.len()) is None);
    assert(count_from(t, new, k + new.len()) == 0);
    assert(count_from(t, new, 0) == 1);
    assert(t.subrange(0, k) =~= s.subrange(0, k));
    assert(t.subrange(k + new.len(), t.len() as int) =~= s.subrange(k + old.len(), s.len() as int));
    assert(s.subrange(k, k + old.len()) =~= old);
    assert(s =~= s.subrange(0, k) + old + s.subrange(k + old.len(), s.len() as int));
}

pub open spec fn op_text(op: ReplaceExactTextOperationV1) -> (Seq<char>, Seq<char>, Option<Seq<char>>, Seq<char>, Seq<char>, Option<Seq<char>>) {
    (op.op@, op.artifact_id@, crate::project::model::opt_text(op.source_path), op.old_text@, op.new_text@, crate::project::model::opt_text(op.selector_hint))
}

/// A review handles patches of exactly one operation.
pub fn single_operation(patch: &PatchDocumentV1) -> (r: Result<&ReplaceExactTextOperationV1, String>)
    ensures
        patch.operations@.len() == 1 ==> (r matches Ok(op) && *op == patch.operations@[0]),
        patch.operations@.len() != 1 ==> (r matches Err(m) && m@ == "review supports exactly one operation, got "@
            + decimal(patch.operations@.len() as nat)),
{
    if patch.operations.len() != 1 {
        let mut m = lit("review supports exactly one operation, got ");
        let d = decimal_chars(patch.operations.len() as u64);
        let ds = string_from_chars(d.as_slice());
        m.append(ds.as_str());
        return Err(m);
    }
    Ok(&patch.operations[0])
}

fn copy_opt(o: &Option<String>) -> (r: Option<String>)
    ensures
        crate::project::model::opt_text(r) == crate::project::model::opt_text(*o),
{
    match o {
        Some(s) => Some(s.clone()),
        None => None,
    }
}

/// The patch that undoes a single-operation patch: the same target, with
/// old and new text swapped, by `actor`.
pub fn reverse_patch(patch: &PatchDocumentV1, actor: String) -> (r: Result<PatchDocumentV1, String>)
    ensures
        patch.operations@.len() != 1 ==> (r matches Err(m) && m@ == "review supports exactly one operation, got "@
            + decimal(patch.operations@.len() as nat)),
        patch.operations@.len() == 1 ==> (r matches Ok(rev) && {
            let op = patch.operations@[0];
            let back = rev.operations@[0];
            &&& rev.schema_version@ == "capy.patch.v1"@
            &&& crate::project::model::opt_text(rev.project_id) == crate::project::model::opt_text(patch.project_id)
            &&& crate::project::model::opt_text(rev.input_context_ref) == crate::project::model::opt_text(
                patch.input_context_ref,
            )
            &&& rev.actor matches Some(a) && a@ == actor@
            &&& rev.operations@.len() == 1
            &&& op_text(back) == (op.op@, op.artifact_id@, crate::project::model::opt_text(op.source_path), op.new_text@, op.old_text@, crate::project::model::opt_text(op.selector_hint))
        }),
{
    let op = single_operation(patch)?;
    let back = ReplaceExactTextOperationV1 {
        op: op.op.clone(),
        artifact_id: op.artifact_id.clone(),
        source_path: copy_opt(&op.source_path),
        old_text: op.new_text.clone(),
        new_text: op.old_text.clone(),
        selector_hint: copy_opt(&op.selector_hint),
    };
    let mut ops: Vec<ReplaceExactTextOperationV1> = Vec::new();
    ops.push(back);
    Ok(
        PatchDocumentV1 {
            schema_version: lit("capy.patch.v1"),
            project_id: copy_opt(&patch.project_id),
            input_context_ref: copy_opt(&patch.input_context_ref),
            actor: Some(actor),
            operations: ops,
        },
    )
}

/// The staged sources of a patch as texts: each path with its edited text.
pub open spec fn staged_view(v: Seq<(String, String)>) -> Seq<(Seq<char>, Seq<char>)> {
    v.map_values(|e: (String, String)| (e.0@, e.1@))
}

/// Where `path` is staged among the first `n` entries, if it is.
pub open spec fn staged_position(v: Seq<(Seq<char>, Seq<char>)>, path: Seq<char>, n: int) -> Option<int>
    decreases n,
{
    if n <= 0 {
        None
    } else if v[n - 1].0 == path {
        Some(n - 1)
    } else {
        staged_position(v, path, n - 1)
    }
}

/// The staging after `path` is given the text `t`: its entry replaced, or
/// a new entry at the end.
pub open spec fn staged_with(v: Seq<(Seq<char>, Seq<char>)>, path: Seq<char>, t: Seq<char>) -> Seq<(Seq<char>, Seq<char>)> {
    match staged_position(v, path, v.len() as int) {
        Some(i) => v.update(i, (path, t)),
        None => v.push((path, t)),
    }
}

/// The text an operation on `path` edits: the staged text when an earlier
/// operation already edited that file, else the file's text.
pub open spec fn text_to_edit(v: Seq<(Seq<char>, Seq<char>)>, path: Seq<char>, disk_text: Seq<char>) -> Seq<char> {
    match staged_position(v, path, v.len() as int) {
        Some(i) => v[i].1,
        None => disk_text,
    }
}

proof fn lemma_staged_position_in_range(v: Seq<(Seq<char>, Seq<char>)>, path: Seq<char>, n: int)
    requires
        0 <= n <= v.len(),
    ensures
        staged_position(v, path, n) matches Some(i) ==> 0 <= i < n && v[i].0 == path,
    decreases n,
{
    if n > 0 {
        lemma_staged_position_in_range(v, path, n - 1);
    }
}

fn find_staged(staged: &Vec<(String, String)>, path: &str) -> (r: Option<usize>)
    ensures
        match r {
            Some(i) => staged_position(staged_view(staged@), path@, staged@.len() as int) == Some(i as int),
            None => staged_position(staged_view(staged@), path@, staged@.len() as int) is None,
        },
{
    let ghost v = staged_view(staged@);
    let mut i: usize = staged.len();
    while i > 0
        invariant
            i <= staged.len(),
            v == staged_view(staged@),
            staged_position(v, path@, staged@.len() as int) == staged_position(v, path@, i as int),
        decreases i,
    {
        if same_text(staged[i - 1].0.as_str(), path) {
            return Some(i - 1);
        }
        i = i - 1;
    }
    None
}

/// One operation of a patch against the staged sources. The operation is
/// checked, its text (staged, or else `disk_text`, the file at `path`) must
/// hold `old_text` exactly once, and only then is the edited text staged;
/// a refused operation leaves the staging as it was, so a patch is written
/// all or not at all.
pub fn stage_operation(
    staged: &mut Vec<(String, String)>,
    path: &str,
    disk_text: &str,
    artifact_id: &str,
    op: &ReplaceExactTextOperationV1,
) -> (r: Result<(), String>)
    ensures
        match spec_operation_issue(*op) {
            Some(m) => r matches Err(e) && e@ == m && final(staged)@ == old(staged)@,
            None => match spec_replace_unique(
                artifact_id@,
                text_to_edit(staged_view(old(staged)@), path@, disk_text@),
                op.old_text@,
                op.new_text@,
            ) {
                Err(m) => r matches Err(e) && e@ == m && final(staged)@ == old(staged)@,
                Ok(t) => r is Ok && staged_view(final(staged)@) == staged_with(staged_view(old(staged)@), path@, t),
            },
        },
{
    match check_operation(op) {
        Err(e) => return Err(e),
        Ok(()) => {},
    }
    let at = find_staged(staged, path);
    proof {
        lemma_staged_position_in_range(staged_view(staged@), path@, staged@.len() as int);
    }
    let edited = match at {
        Some(i) => replace_unique(artifact_id, staged[i].1.as_str(), op.old_text.as_str(), op.new_text.as_str()),
        None => replace_unique(artifact_id, disk_text, op.old_text.as_str(), op.new_text.as_str()),
    };
    let t = match edited {
        Err(e) => return Err(e),
        Ok(t) => t,
    };
    let ghost before = staged@;
    match at {
        Some(i) => {
            proof {
                lemma_staged_position_in_range(staged_view(before), path@, before.len() as int);
            }
            let entry = (lit(path), t);
            staged.set(i, entry);
            proof {
                assert(staged_view(staged@) =~= staged_view(before).update(i as int, (path@, entry.1@)));
            }
        },
        None => {
            staged.push((lit(path), t));
            proof {
                assert(staged_view(staged@) =~= staged_view(before).push((path@, staged@.last().1@)));
            }
        },
    }
    Ok(())
}

/// What the caller found for one operation of a patch before it is
/// staged: the file it edits and that file's text, with the artifact's id.
pub struct PreparedSource {
    pub path: String,
    pub disk_text: String,
    pub artifact_id: String,
}

pub open spec fn prepared_view(p: Result<PreparedSource, String>) -> Result<(Seq<char>, Seq<char>, Seq<char>), Seq<char>> {
    match p {
        Ok(s) => Ok((s.path@, s.disk_text@, s.artifact_id@)),
        Err(e) => Err(e@),
    }
}

/// The staging of the first `n` operations of a patch, or the first
/// refusal: each operation is checked, then what was found for it must be
/// there, then its text (staged by an earlier operation on the same file,
/// else the file's) must hold `old_text` exactly once.
pub open spec fn patch_staging(
    ops: Seq<ReplaceExactTextOperationV1>,
    prep: Seq<Result<(Seq<char>, Seq<char>, Seq<char>), Seq<char>>>,
    n: int,
) -> Result<Seq<(Seq<char>, Seq<char>)>, Seq<char>>
    decreases n,
{
    if n <= 0 {
        Ok(seq![])
    } else {
        match patch_staging(ops, prep, n - 1) {
            Err(e) => Err(e),
            Ok(v) => match spec_operation_issue(ops[n - 1]) {
                Some(m) => Err(m),
                None => match prep[n - 1] {
                    Err(e) => Err(e),
                    Ok((path, disk, id)) => match spec_replace_unique(
                        id,
                        text_to_edit(v, path, disk),
                        ops[n - 1].old_text@,
                        ops[n - 1].new_text@,
                    ) {
                        Err(m) => Err(m),
                        Ok(t) => Ok(staged_with(v, path, t)),
                    },
                },
            },
        }
    }
}

/// Stages every operation of a patch in order: all of them, or, at the
/// first refusal, nothing at all and that refusal. `prepared[i]` is what
/// the caller found for operation `i` (or the error it met finding it).
pub fn stage_patch(
    ops: &[ReplaceExactTextOperationV1],
    prepared: &[Result<PreparedSource, String>],
) -> (r: Result<Vec<(String, String)>, String>)
    requires
        ops.len() == prepared.len(),
    ensures
        match patch_staging(ops@, prepared@.map_values(|p: Result<PreparedSource, String>| prepared_view(p)), ops@.len() as int) {
            Ok(v) => r matches Ok(staged) && staged_view(staged@) == v,
            Err(m) => r matches Err(e) && e@ == m,
        },
{
    let ghost pv = prepared@.map_values(|p: Result<PreparedSource, String>| prepared_view(p));
    let mut staged: Vec<(String, String)> = Vec::new();
    let mut i: usize = 0;
    proof {
        assert(staged_view(staged@) =~= seq![]);
    }
    while i < ops.len()
        invariant
            i <= ops.len(),
            ops.len() == prepared.len(),
            pv == prepared@.map_values(|p: Result<PreparedSource, String>| prepared_view(p)),
            patch_staging(ops@, pv, i as int) == Ok::<Seq<(Seq<char>, Seq<char>)>, Seq<char>>(staged_view(staged@)),
        decreases ops.len() - i,
    {
        let op = &ops[i];
        match check_operation(op) {
            Err(e) => {
                proof {
                    lemma_patch_staging_stays_refused(ops@, pv, i as int + 1, ops@.len() as int);
                }
                return Err(e);
            },
            Ok(()) => {},
        }
        match &prepared[i] {
            Err(e) => {
                assert(pv[i as int] == prepared_view(prepared@[i as int]));
                proof {
                    lemma_patch_staging_stays_refused(ops@, pv, i as int + 1, ops@.len() as int);
                }
                return Err(e.clone());
            },
            Ok(p) => {
                assert(pv[i as int] == prepared_view(prepared@[i as int]));
                match stage_operation(&mut staged, p.path.as_str(), p.disk_text.as_str(), p.artifact_id.as_str(), op) {
                    Err(e) => {
                        proof {
                            lemma_patch_staging_stays_refused(ops@, pv, i as int + 1, ops@.len() as int);
                        }
                        return Err(e);
                    },
                    Ok(()) => {},
                }
            },
        }
        i = i + 1;
    }
    Ok(staged)
}

/// Once the staging of a patch is refused, it stays refused with the same
/// error, however many more operations follow.
proof fn lemma_patch_staging_stays_refused(
    ops: Seq<ReplaceExactTextOperationV1>,
    prep: Seq<Result<(Seq<char>, Seq<char>, Seq<char>), Seq<char>>>,
    k: int,
    n: int,
)
    requires
        0 < k <= n,
        patch_staging(ops, prep, k) is Err,
    ensures
        patch_staging(ops, prep, n) == patch_staging(ops, prep, k),
    decreases n - k,
{
    if n > k {
        lemma_patch_staging_stays_refused(ops, prep, k, n - 1);
    }
}

} // verus!
